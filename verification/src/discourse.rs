//! The forum-side registry: one indexer per configured discourse instance,
//! each owning its work queue, with the uniform enqueue entry point used by
//! the read API, the webhook handlers and the scheduler.

use vstd::prelude::*;

use crate::dedup::spec_enqueue_model;
use crate::dedup::DedupQueue;
use crate::dedup::WorkKey;

verus! {

/// A forum topic's identifier within its instance.
pub type TopicId = i32;

/// Static configuration of one discourse instance, immutable for the
/// process lifetime.
#[derive(Clone, Debug)]
pub struct DiscourseConfig {
    pub discourse_id: String,
    pub url: String,
    pub scrape_interval: String,
}

/// The queued payload for one unit of topic-indexing work.
#[derive(Clone, Copy, Debug, PartialEq, Eq, Structural)]
pub struct DiscourseTopicIndexRequest {
    pub topic_id: TopicId,
    pub page: u32,
}

/// The error returned when an enqueue names an instance that is not
/// configured.
#[derive(Clone, Debug)]
pub struct UnknownInstance {
    pub instance_id: String,
}

/// The work key under which one page of one topic is deduplicated.
pub open spec fn spec_topic_key(topic_id: TopicId, page: u32) -> WorkKey {
    WorkKey { subject_id: topic_id as i64, page }
}

/// Indexer for a single discourse instance: its configuration and the dedup
/// queue its worker loop consumes.
pub struct DiscourseIndexer {
    pub config: DiscourseConfig,
    pub queue: DedupQueue,
}

impl DiscourseIndexer {
    /// A fresh indexer with an empty queue.
    pub fn new(config: DiscourseConfig) -> (r: Self)
        ensures
            r.queue.wf(),
            r.queue.pending() == Seq::<WorkKey>::empty(),
            r.queue.outstanding() == Seq::<WorkKey>::empty(),
            r.config == config,
    {
        DiscourseIndexer { config, queue: DedupQueue::new() }
    }

    /// Takes the oldest pending request off this instance's queue, for the
    /// worker loop to process; its key stays outstanding until the loop
    /// releases it.
    pub fn dequeue(&mut self) -> (r: Option<DiscourseTopicIndexRequest>)
        requires
            old(self).queue.wf(),
        ensures
            final(self).queue.wf(),
            final(self).config == old(self).config,
            final(self).queue.outstanding() == old(self).queue.outstanding(),
            old(self).queue.pending().len() == 0 ==> r is None && final(self).queue.pending()
                == old(self).queue.pending(),
            old(self).queue.pending().len() > 0 ==> {
                let k = old(self).queue.pending()[0];
                &&& r == Some(
                    DiscourseTopicIndexRequest { topic_id: k.subject_id as i32, page: k.page },
                )
                &&& final(self).queue.pending() == old(self).queue.pending().drop_first()
                &&& final(self).queue.is_outstanding(k)
                &&& !final(self).queue.pending().contains(k)
            },
    {
        match self.queue.dequeue() {
            Some(k) => Some(
                DiscourseTopicIndexRequest {
                    topic_id: #[verifier::truncate] (k.subject_id as i32),
                    page: k.page,
                },
            ),
            None => None,
        }
    }

    /// Offers one topic page to this instance's queue; `true` means a new
    /// request was produced, `false` that an identical request was already
    /// in flight and the call coalesced into it.
    pub fn enqueue(&mut self, topic_id: TopicId, page: u32) -> (fresh: bool)
        requires
            old(self).queue.wf(),
        ensures
            final(self).queue.wf(),
            final(self).config == old(self).config,
            fresh == !old(self).queue.is_outstanding(spec_topic_key(topic_id, page)),
            (final(self).queue.pending(), final(self).queue.outstanding()) == spec_enqueue_model(
                old(self).queue.pending(),
                old(self).queue.outstanding(),
                spec_topic_key(topic_id, page),
            ),
    {
        self.queue.enqueue(WorkKey { subject_id: topic_id as i64, page })
    }
}

/// What a successful registry enqueue did at indexer `i`: that indexer's
/// queue took the key, every other indexer is untouched.
pub open spec fn spec_enqueued_at(
    pre: DiscourseService,
    post: DiscourseService,
    i: int,
    id: Seq<char>,
    k: WorkKey,
) -> bool {
    &&& 0 <= i < pre.indexers@.len()
    &&& pre.indexers@[i].config.discourse_id@ == id
    &&& post.indexers@.len() == pre.indexers@.len()
    &&& post.indexers@[i].config == pre.indexers@[i].config
    &&& (post.indexers@[i].queue.pending(), post.indexers@[i].queue.outstanding())
        == spec_enqueue_model(
        pre.indexers@[i].queue.pending(),
        pre.indexers@[i].queue.outstanding(),
        k,
    )
    &&& forall|j: int|
        0 <= j < pre.indexers@.len() && j != i ==> post.indexers@[j] == pre.indexers@[j]
}

/// The registry of all configured discourse instances.
pub struct DiscourseService {
    pub indexers: Vec<DiscourseIndexer>,
}

impl DiscourseService {
    /// Every queue well-formed and every instance id distinct.
    pub open spec fn wf(&self) -> bool {
        &&& forall|i: int|
            0 <= i < self.indexers@.len() ==> (#[trigger] self.indexers@[i]).queue.wf()
        &&& forall|i: int, j: int|
            0 <= i < j < self.indexers@.len()
                ==> self.indexers@[i].config.discourse_id@
                != self.indexers@[j].config.discourse_id@
    }

    /// Whether some indexer is configured under this instance id.
    pub open spec fn spec_has_instance(&self, id: Seq<char>) -> bool {
        exists|i: int|
            0 <= i < self.indexers@.len() && (#[trigger] self.indexers@[i]).config.discourse_id@
                == id
    }

    /// Builds one indexer per configuration, in order.
    pub fn new(configs: Vec<DiscourseConfig>) -> (r: Self)
        requires
            forall|i: int, j: int|
                0 <= i < j < configs@.len() ==> configs@[i].discourse_id@
                    != configs@[j].discourse_id@,
        ensures
            r.wf(),
            r.indexers@.len() == configs@.len(),
            forall|i: int|
                0 <= i < configs@.len() ==> (#[trigger] r.indexers@[i]).config == configs@[i]
                    && r.indexers@[i].queue.pending() == Seq::<WorkKey>::empty()
                    && r.indexers@[i].queue.outstanding() == Seq::<WorkKey>::empty(),
    {
        let ghost all = configs@;
        let mut rest = configs;
        let mut indexers: Vec<DiscourseIndexer> = Vec::new();
        while rest.len() > 0
            invariant
                indexers@.len() + rest@.len() == all.len(),
                rest@ == all.subrange(indexers@.len() as int, all.len() as int),
                forall|j: int, m: int|
                    0 <= j < m < all.len() ==> all[j].discourse_id@ != all[m].discourse_id@,
                forall|j: int|
                    0 <= j < indexers@.len() ==> (#[trigger] indexers@[j]).config == all[j]
                        && indexers@[j].queue.wf() && indexers@[j].queue.pending() == Seq::<
                        WorkKey,
                    >::empty() && indexers@[j].queue.outstanding() == Seq::<WorkKey>::empty(),
            decreases rest@.len(),
        {
            let config = rest.remove(0);
            proof {
                assert(config == all[indexers@.len() as int]);
                assert(rest@ =~= all.subrange(indexers@.len() as int + 1, all.len() as int));
            }
            indexers.push(DiscourseIndexer::new(config));
        }
        let r = DiscourseService { indexers };
        r
    }

    /// Finds the indexer configured under `discourse_id`, if any.
    fn find_index(&self, discourse_id: &String) -> (r: Option<usize>)
        ensures
            match r {
                Some(i) => i < self.indexers@.len()
                    && self.indexers@[i as int].config.discourse_id@ == discourse_id@,
                None => !self.spec_has_instance(discourse_id@),
            },
    {
        let mut i: usize = 0;
        while i < self.indexers.len()
            invariant
                i <= self.indexers@.len(),
                forall|j: int|
                    0 <= j < i as int ==> (#[trigger] self.indexers@[j]).config.discourse_id@
                        != discourse_id@,
            decreases self.indexers@.len() - i,
        {
            if self.indexers[i].config.discourse_id.eq(discourse_id) {
                return Some(i);
            }
            i += 1;
        }
        None
    }

    /// Forwards a topic page to the queue of the named instance; rejects an
    /// instance id that is not configured, leaving every queue untouched.
    /// A request already in flight for the same topic page is coalesced.
    pub fn enqueue(&mut self, discourse_id: &String, topic_id: TopicId, page: u32) -> (r: Result<
        (),
        UnknownInstance,
    >)
        requires
            old(self).wf(),
        ensures
            final(self).wf(),
            (r is Err) == !old(self).spec_has_instance(discourse_id@),
            r is Err ==> *final(self) == *old(self) && (r->Err_0).instance_id@ == discourse_id@,
            r is Ok ==> exists|i: int|
                #![auto]
                spec_enqueued_at(
                    *old(self),
                    *final(self),
                    i,
                    discourse_id@,
                    spec_topic_key(topic_id, page),
                ),
    {
        match self.find_index(discourse_id) {
            Some(i) => {
                let ghost pre = *self;
                let w = &mut self.indexers[i];
                w.enqueue(topic_id, page);
                proof {
                    assert(spec_enqueued_at(
                        pre,
                        *self,
                        i as int,
                        discourse_id@,
                        spec_topic_key(topic_id, page),
                    ));
                    assert forall|a: int|
                        0 <= a < self.indexers@.len() implies (
                    #[trigger] self.indexers@[a]).queue.wf() by {
                        if a != i as int {
                            assert(self.indexers@[a] == pre.indexers@[a]);
                        }
                    }
                }
                Ok(())
            },
            None => Err(UnknownInstance { instance_id: discourse_id.clone() }),
        }
    }

    /// The configured base URL of the named instance, if it exists.
    pub fn get_discourse_url(&self, discourse_id: &String) -> (r: Option<String>)
        ensures
            (r is Some) == self.spec_has_instance(discourse_id@),
            r is Some ==> exists|i: int|
                0 <= i < self.indexers@.len() && (
                #[trigger] self.indexers@[i]).config.discourse_id@ == discourse_id@
                    && self.indexers@[i].config.url@ == (r->Some_0)@,
    {
        match self.find_index(discourse_id) {
            Some(i) => Some(self.indexers[i].config.url.clone()),
            None => None,
        }
    }
}

/// The statically configured discourse instances this deployment mirrors.
pub fn create_discourse_configs() -> (r: Vec<DiscourseConfig>)
    ensures
        r@.len() == 2,
        r@[0].discourse_id@ == "magicians"@,
        r@[0].url@ == "https://ethereum-magicians.org"@,
        r@[0].scrape_interval@ == "30m"@,
        r@[1].discourse_id@ == "research"@,
        r@[1].url@ == "https://ethresear.ch"@,
        r@[1].scrape_interval@ == "30m"@,
        r@[0].discourse_id@ != r@[1].discourse_id@,
{
    proof {
        reveal_strlit("magicians");
        reveal_strlit("research");
        assert("magicians"@.len() == 9);
        assert("research"@.len() == 8);
    }
    let mut r: Vec<DiscourseConfig> = Vec::new();
    r.push(
        DiscourseConfig {
            discourse_id: "magicians".to_owned(),
            url: "https://ethereum-magicians.org".to_owned(),
            scrape_interval: "30m".to_owned(),
        },
    );
    r.push(
        DiscourseConfig {
            discourse_id: "research".to_owned(),
            url: "https://ethresear.ch".to_owned(),
            scrape_interval: "30m".to_owned(),
        },
    );
    r
}

} // verus!
