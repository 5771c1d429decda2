//! The tracker-side registry: one indexer per configured GitHub repository,
//! structurally the same worker as the forum side, plus the decisions its
//! issue and comment pagination loops make.

use vstd::prelude::*;

use crate::dedup::spec_enqueue_model;
use crate::dedup::DedupQueue;
use crate::dedup::WorkKey;
use crate::discourse::UnknownInstance;

verus! {

/// Static configuration of one mirrored repository.
#[derive(Clone, Debug)]
pub struct GithubConfig {
    pub owner: String,
    pub repo: String,
    pub scrape_interval: String,
}

/// The queued payload for one unit of issue-indexing work: a whole
/// repository when `issue_number` is absent, one issue's comments when it
/// is present.
#[derive(Clone, Debug)]
pub struct GithubIndexRequest {
    pub owner: String,
    pub repo: String,
    pub issue_number: Option<u64>,
}

/// One issue as a listing page reports it.
#[derive(Clone, Copy, Debug)]
pub struct IssueSummary {
    pub number: i64,
    pub updated_at: i64,
    pub is_pull_request: bool,
}

/// The work key a request is deduplicated under.  Subject 0 stands for the
/// repository-wide listing walk; real issue numbers start at 1.
pub open spec fn spec_github_key(issue_number: Option<u64>) -> WorkKey {
    match issue_number {
        Some(n) => WorkKey { subject_id: n as i64, page: 1u32 },
        None => WorkKey { subject_id: 0, page: 0u32 },
    }
}

/// Whether a fetched issue has news for the local store: it does when no
/// record of it exists or when the fetched update time is strictly newer.
/// A failed lookup is handed in as a missing record, so lookup trouble errs
/// toward re-fetching.
pub open spec fn spec_issue_should_update(existing_updated_at: Option<i64>, fetched: i64) -> bool {
    match existing_updated_at {
        None => true,
        Some(t) => fetched > t,
    }
}

/// Pure decision of whether an issue's comments are worth fetching.
pub fn issue_should_update(existing_updated_at: Option<i64>, fetched_updated_at: i64) -> (r: bool)
    ensures
        r == spec_issue_should_update(existing_updated_at, fetched_updated_at),
{
    match existing_updated_at {
        None => true,
        Some(t) => fetched_updated_at > t,
    }
}

/// What the worker does about an issue's comments once the store was asked
/// for the issue's record.
#[derive(Clone, Copy, Debug, PartialEq, Eq, Structural)]
pub enum CommentsDecision {
    /// The issue is stored: its comments are fetched.
    Fetch,
    /// The store does not know the issue: its comments are skipped, since
    /// they could not be attached to anything.
    SkipUnknown,
    /// The lookup itself failed: the item fails, to be retried by the next
    /// periodic discovery.
    FailLookup,
}

/// Decides whether an issue's comments are fetched: only for an issue the
/// store knows; a store that could not even be asked fails the item.  A
/// failed lookup wins over whatever the known flag says.
pub fn plan_issue_comments(lookup_failed: bool, issue_known: bool) -> (r: CommentsDecision)
    ensures
        r == if lookup_failed {
            CommentsDecision::FailLookup
        } else if issue_known {
            CommentsDecision::Fetch
        } else {
            CommentsDecision::SkipUnknown
        },
{
    if lookup_failed {
        CommentsDecision::FailLookup
    } else if issue_known {
        CommentsDecision::Fetch
    } else {
        CommentsDecision::SkipUnknown
    }
}

/// Whether a pagination chain goes on after a page of `count` items when
/// pages hold `per_page`: a short or empty page ends the chain.
pub fn more_pages(count: usize, per_page: usize) -> (r: bool)
    requires
        per_page > 0,
    ensures
        r == (count >= per_page),
{
    count >= per_page
}

/// The queue contents after offering the comment-fetch of every updated,
/// genuine issue of a listing page, in order.
pub open spec fn spec_issues_fold(
    pending: Seq<WorkKey>,
    outstanding: Seq<WorkKey>,
    issues: Seq<IssueSummary>,
    existing: Seq<Option<i64>>,
) -> (Seq<WorkKey>, Seq<WorkKey>)
    decreases issues.len(),
{
    if issues.len() == 0 || existing.len() == 0 {
        (pending, outstanding)
    } else {
        let it = issues[0];
        let k = WorkKey { subject_id: it.number, page: 1u32 };
        if !it.is_pull_request && spec_issue_should_update(existing[0], it.updated_at)
            && !outstanding.contains(k) {
            spec_issues_fold(
                pending.push(k),
                outstanding.push(k),
                issues.drop_first(),
                existing.drop_first(),
            )
        } else {
            spec_issues_fold(pending, outstanding, issues.drop_first(), existing.drop_first())
        }
    }
}

/// What the worker does with one listing page of issues.
pub struct IssuesPagePlan {
    /// Per issue, whether its record is stored: only a genuine issue with
    /// news is; a fresh issue gets no write, and pull requests are passed
    /// over entirely.
    pub upserts: Vec<bool>,
    /// Whether the listing chain continues to the next page.
    pub fetch_next: bool,
}

/// Decides one listing page of issues: a genuine issue with news has its
/// record upserted and its comment-fetch queued, deduplicated against work
/// already in flight; an issue that is already up to date gets no write
/// and no enqueue, and a pull request is skipped; a full page means the
/// listing continues.  `existing_updated` carries, per issue, the stored
/// update time of that issue, absent when the store has none (or the lookup
/// failed, which deliberately counts as news).
pub fn plan_issues_page(
    queue: &mut DedupQueue,
    issues: &Vec<IssueSummary>,
    existing_updated: &Vec<Option<i64>>,
    per_page: usize,
) -> (plan: IssuesPagePlan)
    requires
        old(queue).wf(),
        issues@.len() == existing_updated@.len(),
        per_page > 0,
    ensures
        final(queue).wf(),
        (final(queue).pending(), final(queue).outstanding()) == spec_issues_fold(
            old(queue).pending(),
            old(queue).outstanding(),
            issues@,
            existing_updated@,
        ),
        plan.upserts@.len() == issues@.len(),
        forall|i: int|
            0 <= i < issues@.len() ==> plan.upserts@[i] == (!(
            #[trigger] issues@[i]).is_pull_request && spec_issue_should_update(
                existing_updated@[i],
                issues@[i].updated_at,
            )),
        plan.fetch_next == (issues@.len() >= per_page),
{
    let mut upserts: Vec<bool> = Vec::new();
    let mut i: usize = 0;
    proof {
        assert(issues@.subrange(0, issues@.len() as int) =~= issues@);
        assert(existing_updated@.subrange(0, existing_updated@.len() as int)
            =~= existing_updated@);
    }
    while i < issues.len()
        invariant
            queue.wf(),
            i <= issues@.len(),
            issues@.len() == existing_updated@.len(),
            upserts@.len() == i,
            forall|j: int|
                0 <= j < i as int ==> upserts@[j] == (!(
                #[trigger] issues@[j]).is_pull_request && spec_issue_should_update(
                    existing_updated@[j],
                    issues@[j].updated_at,
                )),
            spec_issues_fold(
                queue.pending(),
                queue.outstanding(),
                issues@.subrange(i as int, issues@.len() as int),
                existing_updated@.subrange(i as int, existing_updated@.len() as int),
            ) == spec_issues_fold(
                old(queue).pending(),
                old(queue).outstanding(),
                issues@,
                existing_updated@,
            ),
        decreases issues@.len() - i,
    {
        proof {
            assert(issues@.subrange(i as int, issues@.len() as int).drop_first()
                =~= issues@.subrange(i + 1, issues@.len() as int));
            assert(existing_updated@.subrange(i as int, existing_updated@.len() as int)
                .drop_first() =~= existing_updated@.subrange(
                i + 1,
                existing_updated@.len() as int,
            ));
        }
        let it = &issues[i];
        if it.is_pull_request {
            upserts.push(false);
        } else {
            let update = issue_should_update(existing_updated[i], it.updated_at);
            upserts.push(update);
            if update {
                queue.enqueue(WorkKey { subject_id: it.number, page: 1 });
            }
        }
        i += 1;
    }
    let fetch_next = more_pages(issues.len(), per_page);
    IssuesPagePlan { upserts, fetch_next }
}

/// Indexer for a single repository.
pub struct GithubIndexer {
    pub config: GithubConfig,
    pub queue: DedupQueue,
}

impl GithubIndexer {
    /// A fresh indexer with an empty queue.
    pub fn new(config: GithubConfig) -> (r: Self)
        ensures
            r.queue.wf(),
            r.queue.pending() == Seq::<WorkKey>::empty(),
            r.queue.outstanding() == Seq::<WorkKey>::empty(),
            r.config == config,
    {
        GithubIndexer { config, queue: DedupQueue::new() }
    }

    /// Offers one request to this repository's queue, deduplicated against
    /// identical work already in flight.
    pub fn enqueue(&mut self, issue_number: Option<u64>) -> (fresh: bool)
        requires
            old(self).queue.wf(),
            match issue_number {
                Some(n) => n < 0x8000_0000_0000_0000u64,
                None => true,
            },
        ensures
            final(self).queue.wf(),
            final(self).config == old(self).config,
            fresh == !old(self).queue.is_outstanding(spec_github_key(issue_number)),
            (final(self).queue.pending(), final(self).queue.outstanding()) == spec_enqueue_model(
                old(self).queue.pending(),
                old(self).queue.outstanding(),
                spec_github_key(issue_number),
            ),
    {
        let key = match issue_number {
            Some(n) => WorkKey { subject_id: n as i64, page: 1 },
            None => WorkKey { subject_id: 0, page: 0 },
        };
        self.queue.enqueue(key)
    }
}

/// What a successful registry enqueue did at indexer `i`.
pub open spec fn spec_github_enqueued_at(
    pre: GithubService,
    post: GithubService,
    i: int,
    k: WorkKey,
) -> bool {
    &&& 0 <= i < pre.indexers@.len()
    &&& post.indexers@.len() == pre.indexers@.len()
    &&& post.indexers@[i].config == pre.indexers@[i].config
    &&& (post.indexers@[i].queue.pending(), post.indexers@[i].queue.outstanding())
        == spec_enqueue_model(
        pre.indexers@[i].queue.pending(),
        pre.indexers@[i].queue.outstanding(),
        k,
    )
    &&& forall|j: int|
        0 <= j < pre.indexers@.len() && j != i ==> post.indexers@[j] == pre.indexers@[j]
}

/// The registry of all mirrored repositories.
pub struct GithubService {
    pub indexers: Vec<GithubIndexer>,
}

impl GithubService {
    /// Whether indexer `i` is configured for this owner and repository.
    pub open spec fn spec_matches(&self, i: int, owner: Seq<char>, repo: Seq<char>) -> bool {
        &&& self.indexers@[i].config.owner@ == owner
        &&& self.indexers@[i].config.repo@ == repo
    }

    /// Every queue well-formed and every owner/repository pair distinct.
    pub open spec fn wf(&self) -> bool {
        &&& forall|i: int|
            0 <= i < self.indexers@.len() ==> (#[trigger] self.indexers@[i]).queue.wf()
        &&& forall|i: int, j: int|
            0 <= i < j < self.indexers@.len() ==> !(self.indexers@[j].config.owner@
                == self.indexers@[i].config.owner@ && self.indexers@[j].config.repo@
                == self.indexers@[i].config.repo@)
    }

    /// Whether some indexer is configured for this repository.
    pub open spec fn spec_has_repo(&self, owner: Seq<char>, repo: Seq<char>) -> bool {
        exists|i: int| 0 <= i < self.indexers@.len() && #[trigger] self.spec_matches(i, owner, repo)
    }

    /// A registry over the given indexers.
    pub fn new(indexers: Vec<GithubIndexer>) -> (r: Self)
        requires
            forall|i: int| 0 <= i < indexers@.len() ==> (#[trigger] indexers@[i]).queue.wf(),
            forall|i: int, j: int|
                0 <= i < j < indexers@.len() ==> !(indexers@[j].config.owner@
                    == indexers@[i].config.owner@ && indexers@[j].config.repo@
                    == indexers@[i].config.repo@),
        ensures
            r.wf(),
            r.indexers@ == indexers@,
    {
        GithubService { indexers }
    }

    /// Finds the indexer for `owner`/`repo`, if any.
    fn find_index(&self, owner: &String, repo: &String) -> (r: Option<usize>)
        ensures
            match r {
                Some(i) => i < self.indexers@.len() && self.spec_matches(
                    i as int,
                    owner@,
                    repo@,
                ),
                None => !self.spec_has_repo(owner@, repo@),
            },
    {
        let mut i: usize = 0;
        while i < self.indexers.len()
            invariant
                i <= self.indexers@.len(),
                forall|j: int| 0 <= j < i as int ==> !self.spec_matches(j, owner@, repo@),
            decreases self.indexers@.len() - i,
        {
            if self.indexers[i].config.owner.eq(owner) && self.indexers[i].config.repo.eq(repo) {
                return Some(i);
            }
            i += 1;
        }
        None
    }

    /// Forwards a request to the queue of the named repository; rejects a
    /// repository that is not configured, leaving every queue untouched.
    pub fn enqueue(&mut self, owner: &String, repo: &String, issue_number: Option<u64>) -> (r:
        Result<(), UnknownInstance>)
        requires
            old(self).wf(),
            match issue_number {
                Some(n) => n < 0x8000_0000_0000_0000u64,
                None => true,
            },
        ensures
            final(self).wf(),
            (r is Err) == !old(self).spec_has_repo(owner@, repo@),
            r is Err ==> *final(self) == *old(self) && (r->Err_0).instance_id@ == owner@ + "/"@
                + repo@,
            r is Ok ==> exists|i: int|
                #![auto]
                old(self).spec_matches(i, owner@, repo@) && spec_github_enqueued_at(
                    *old(self),
                    *final(self),
                    i,
                    spec_github_key(issue_number),
                ),
    {
        match self.find_index(owner, repo) {
            Some(i) => {
                let ghost pre = *self;
                let w = &mut self.indexers[i];
                w.enqueue(issue_number);
                proof {
                    assert(pre.spec_matches(i as int, owner@, repo@));
                    assert(spec_github_enqueued_at(
                        pre,
                        *self,
                        i as int,
                        spec_github_key(issue_number),
                    ));
                    assert forall|a: int|
                        0 <= a < self.indexers@.len() implies (
                    #[trigger] self.indexers@[a]).queue.wf() by {
                        if a != i as int {
                            assert(self.indexers@[a] == pre.indexers@[a]);
                        }
                    }
                }
                Ok(())
            },
            None => {
                let mut key = owner.clone();
                key.append("/");
                key.append(repo.as_str());
                Err(UnknownInstance { instance_id: key })
            },
        }
    }
}

} // verus!
