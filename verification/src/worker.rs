//! One step of the source worker: what happens to a dequeued work item once
//! its fetch has come back, and what that does to the dedup queue.

use vstd::prelude::*;

use crate::dedup::DedupQueue;
use crate::dedup::WorkKey;
use crate::staleness::needs_refetch;
use crate::staleness::spec_needs_refetch;
use crate::staleness::LocalRecord;
use crate::staleness::RemoteSummary;

verus! {

/// The per-item state machine.  An item is `Queued` while it waits in the
/// FIFO, `Fetching` while its page is on the wire, and ends in exactly one
/// of the three terminal states, after which its key is released.
#[derive(Clone, Copy, Debug, PartialEq, Eq, Structural)]
pub enum WorkItemState {
    Queued,
    Fetching,
    Stored,
    FetchFailed,
    ParseFailed,
}

/// A successfully fetched and parsed page of a subject: the summary that
/// feeds the staleness decision, and how many child items the page carries.
#[derive(Clone, Copy, Debug)]
pub struct FetchedPage {
    pub summary: RemoteSummary,
    pub page_item_count: usize,
}

/// How the fetch of one work item ended.
#[derive(Clone, Copy, Debug)]
pub enum FetchOutcome {
    Success(FetchedPage),
    TransportError,
    ParseError,
}

/// The actions a worker step decided on.  The step itself never touches
/// storage or the search index: the surrounding loop performs an action
/// exactly when its flag is set.
#[derive(Clone, Copy, Debug, PartialEq, Eq, Structural)]
pub struct WorkerStep {
    /// Terminal state of the item's state machine.
    pub state: WorkItemState,
    /// The staleness decision said deeper fetching is warranted.
    pub refetched: bool,
    /// Store the object's own record (first page only, so a partial page
    /// never overwrites aggregate fields).
    pub upsert_record: bool,
    /// Store and index every child item found on this page.
    pub upsert_children: bool,
    /// The continuation for the next page was newly queued.
    pub enqueue_next: bool,
}

/// The pagination continuation of a work key: the same subject, one page
/// further.
pub open spec fn spec_next_page_key(key: WorkKey) -> WorkKey {
    WorkKey { subject_id: key.subject_id, page: (key.page + 1) as u32 }
}

/// Whether a step for `key` with this `outcome` and these staleness inputs
/// extends the pagination chain: only a successful fetch of a non-empty page
/// of an object worth refetching does.
pub open spec fn spec_extends_chain(
    outcome: FetchOutcome,
    local: Option<LocalRecord>,
    local_children: u64,
) -> bool {
    match outcome {
        FetchOutcome::Success(p) => spec_needs_refetch(local, local_children, p.summary)
            && p.page_item_count > 0,
        _ => false,
    }
}

/// Processes one dequeued work item, given the outcome of its fetch and the
/// stored state of its subject.  A transport or parse error aborts only this
/// item: nothing is written, nothing further is queued, and the pending FIFO
/// is left exactly as it was, so every other request is still processed.  On
/// success the staleness decision rules: a fresh-enough object causes no
/// writes and no continuation; a stale one has its record stored (first page
/// only) and its children stored, and, if the page was non-empty, the next
/// page of the same subject is enqueued.  The key itself stays outstanding:
/// the caller performs the step's writes and only then calls `release`, so
/// the key leaves the dedup set only after the request has been fully
/// processed, with the continuation enqueued before the release.
pub fn process_work_item(
    queue: &mut DedupQueue,
    key: WorkKey,
    local: Option<&LocalRecord>,
    local_children: u64,
    outcome: &FetchOutcome,
) -> (step: WorkerStep)
    requires
        old(queue).wf(),
        old(queue).is_outstanding(key),
        !old(queue).pending().contains(key),
        *outcome is Success ==> key.page < u32::MAX,
    ensures
        final(queue).wf(),
        step.state == match outcome {
            FetchOutcome::Success(_) => WorkItemState::Stored,
            FetchOutcome::TransportError => WorkItemState::FetchFailed,
            FetchOutcome::ParseError => WorkItemState::ParseFailed,
        },
        step.refetched == match outcome {
            FetchOutcome::Success(p) => spec_needs_refetch(
                match local {
                    Some(l) => Some(*l),
                    None => None,
                },
                local_children,
                p.summary,
            ),
            _ => false,
        },
        step.upsert_record == (step.refetched && key.page == 1),
        step.upsert_children == step.refetched,
        step.enqueue_next == (spec_extends_chain(
            *outcome,
            match local {
                Some(l) => Some(*l),
                None => None,
            },
            local_children,
        ) && !old(queue).is_outstanding(spec_next_page_key(key))),
        final(queue).pending() == if step.enqueue_next {
            old(queue).pending().push(spec_next_page_key(key))
        } else {
            old(queue).pending()
        },
        final(queue).outstanding() == if step.enqueue_next {
            old(queue).outstanding().push(spec_next_page_key(key))
        } else {
            old(queue).outstanding()
        },
        final(queue).is_outstanding(key),
        !final(queue).pending().contains(key),
        forall|k2: WorkKey|
            k2 != spec_next_page_key(key) ==> final(queue).is_outstanding(k2) == old(
                queue,
            ).is_outstanding(k2),
{
    let step = match outcome {
        FetchOutcome::TransportError => WorkerStep {
            state: WorkItemState::FetchFailed,
            refetched: false,
            upsert_record: false,
            upsert_children: false,
            enqueue_next: false,
        },
        FetchOutcome::ParseError => WorkerStep {
            state: WorkItemState::ParseFailed,
            refetched: false,
            upsert_record: false,
            upsert_children: false,
            enqueue_next: false,
        },
        FetchOutcome::Success(page) => {
            let worth = needs_refetch(local, local_children, &page.summary);
            let mut queued_next = false;
            if worth && page.page_item_count > 0 {
                let next = WorkKey { subject_id: key.subject_id, page: key.page + 1 };
                queued_next = queue.enqueue(next);
                proof {
                    let oo = old(queue).outstanding();
                    assert(next == spec_next_page_key(key));
                    assert(next.page != key.page);
                    assert(!queue.pending().contains(key)) by {
                        if queue.pending().contains(key) {
                            let i = choose|i: int|
                                0 <= i < queue.pending().len() && queue.pending()[i] == key;
                            if i < old(queue).pending().len() {
                                assert(old(queue).pending()[i] == key);
                            } else {
                                assert(queue.pending()[i] == next);
                            }
                        }
                    }
                    assert forall|k2: WorkKey| k2 != next implies queue.is_outstanding(k2)
                        == old(queue).is_outstanding(k2) by {
                        if queue.outstanding() == oo.push(next) {
                            if oo.contains(k2) {
                                let j = choose|j: int| 0 <= j < oo.len() && oo[j] == k2;
                                assert(oo.push(next)[j] == k2);
                            }
                            if oo.push(next).contains(k2) {
                                let j = choose|j: int|
                                    0 <= j < oo.push(next).len() && oo.push(next)[j] == k2;
                                if j < oo.len() {
                                    assert(oo[j] == k2);
                                } else {
                                    assert(oo.push(next)[j] == next);
                                }
                            }
                        }
                    }
                }
            }
            WorkerStep {
                state: WorkItemState::Stored,
                refetched: worth,
                upsert_record: worth && key.page == 1,
                upsert_children: worth,
                enqueue_next: queued_next,
            }
        },
    };
    step
}

/// Pagination ordering law for a lone chain: when a subject's chain is the
/// queue's whole content, the worker dequeues its only request (pending
/// empty, the key still outstanding), a successful, non-empty, stale step
/// enqueues the next page, and the loop then releases the key.  The queue
/// afterwards holds
/// exactly the next page, pending and outstanding alike; page `p` is
/// therefore followed by exactly page `p + 1`, and by induction the chain
/// is processed in strictly increasing page order.
pub proof fn lemma_single_chain_advances(s: i64, page: u32)
    requires
        page < u32::MAX,
    ensures
        ({
            let k = WorkKey { subject_id: s, page };
            let next = spec_next_page_key(k);
            &&& Seq::<WorkKey>::empty().push(next) =~= seq![next]
            &&& seq![k].push(next).remove_value(k) =~= seq![next]
        }),
{
    let k = WorkKey { subject_id: s, page };
    let next = spec_next_page_key(k);
    let outstanding = seq![k].push(next);
    assert(outstanding[0] == k);
    assert(outstanding.contains(k));
    outstanding.index_of_first_ensures(k);
    let fi = outstanding.index_of_first(k)->Some_0;
    assert(outstanding[fi] == k);
    if fi != 0 {
        assert(outstanding[fi] == next);
        assert(next.page != k.page);
    }
    assert(outstanding.remove(0) =~= seq![next]);
}

/// One full iteration of the worker loop over the queue's two views, as
/// the contracts of `DedupQueue::dequeue`, `process_work_item` (in its
/// chain-extending case: a successful, stale, non-empty page) and
/// `DedupQueue::release` fix it: the oldest pending request is dequeued,
/// its continuation joins both views unless already outstanding, and the
/// processed key then leaves the outstanding set.
pub open spec fn spec_chain_iteration(
    pre: (Seq<WorkKey>, Seq<WorkKey>),
    key: WorkKey,
    post: (Seq<WorkKey>, Seq<WorkKey>),
) -> bool {
    let next = spec_next_page_key(key);
    &&& pre.0.len() > 0
    &&& pre.0[0] == key
    &&& {
        let dequeued = pre.0.drop_first();
        let mid = if pre.1.contains(next) {
            (dequeued, pre.1)
        } else {
            (dequeued.push(next), pre.1.push(next))
        };
        post == (mid.0, mid.1.remove_value(key))
    }
}

/// The queue's two views when a subject's chain holds exactly one page:
/// that page's request, pending and outstanding alike.
pub open spec fn spec_chain_state(s: i64, page: u32) -> (Seq<WorkKey>, Seq<WorkKey>) {
    (
        seq![WorkKey { subject_id: s, page }],
        seq![WorkKey { subject_id: s, page }],
    )
}

/// Pagination ordering law, run form: start a subject's chain with only
/// page `p0` pending and outstanding, and let every iteration follow the
/// worker loop's contract for a successful, stale, non-empty fetch.  Then
/// the keys processed by iterations 0, 1, 2, ... are exactly pages `p0`,
/// `p0 + 1`, `p0 + 2`, ... of that subject: the worker fetches consecutive
/// pages strictly in order, each queued only while the one before it was
/// being processed.
pub proof fn lemma_chain_run(
    s: i64,
    p0: u32,
    states: Seq<(Seq<WorkKey>, Seq<WorkKey>)>,
    keys: Seq<WorkKey>,
)
    requires
        states.len() == keys.len() + 1,
        states[0] == (spec_chain_state(s, p0)),
        p0 + keys.len() <= u32::MAX,
        forall|i: int|
            0 <= i < keys.len() ==> (spec_chain_iteration(
                states[i],
                #[trigger] keys[i],
                states[i + 1],
            )),
    ensures
        forall|i: int|
            0 <= i < keys.len() ==> #[trigger] keys[i] == (WorkKey {
                subject_id: s,
                page: (p0 + i) as u32,
            }),
    decreases keys.len(),
{
    if keys.len() > 0 {
        let k0 = WorkKey { subject_id: s, page: p0 };
        let next = spec_next_page_key(k0);
        assert(spec_chain_iteration(states[0], keys[0], states[1]));
        assert(keys[0] == k0);
        assert(next == WorkKey { subject_id: s, page: (p0 + 1) as u32 });
        assert(next.page == p0 + 1);
        assert(!seq![k0].contains(next)) by {
            if seq![k0].contains(next) {
                let j = choose|j: int| 0 <= j < 1 && seq![k0][j] == next;
                assert(seq![k0][0] == k0);
            }
        }
        assert(seq![k0].drop_first().push(next) =~= seq![next]);
        lemma_single_chain_advances(s, p0);
        assert(states[1] == (seq![next], seq![next])) by {
            assert(seq![k0].push(next).remove_value(k0) =~= seq![next]);
        }
        assert(states[1] == spec_chain_state(s, (p0 + 1) as u32));
        let tail_states = states.drop_first();
        let tail_keys = keys.drop_first();
        assert forall|i: int|
            0 <= i < tail_keys.len() implies spec_chain_iteration(
            tail_states[i],
            #[trigger] tail_keys[i],
            tail_states[i + 1],
        ) by {
            assert(tail_states[i] == states[i + 1]);
            assert(tail_states[i + 1] == states[i + 2]);
            assert(tail_keys[i] == keys[i + 1]);
            assert(spec_chain_iteration(states[i + 1], keys[i + 1], states[i + 2]));
        }
        lemma_chain_run(s, (p0 + 1) as u32, tail_states, tail_keys);
        assert forall|i: int|
            0 <= i < keys.len() implies #[trigger] keys[i] == WorkKey {
            subject_id: s,
            page: (p0 + i) as u32,
        } by {
            if i > 0 {
                assert(tail_keys[i - 1] == keys[i]);
                assert(tail_keys[i - 1] == WorkKey {
                    subject_id: s,
                    page: (p0 + 1 + (i - 1)) as u32,
                });
            }
        }
    }
}

/// Pagination ordering law, second half: if every queued page of a subject
/// already lay beyond the page just processed, that stays true after the
/// step, so the pages of one subject are processed in strictly increasing
/// order.
pub proof fn lemma_pages_strictly_increase(
    before: Seq<WorkKey>,
    after: Seq<WorkKey>,
    key: WorkKey,
)
    requires
        key.page < u32::MAX,
        after == before || after == before.push(spec_next_page_key(key)),
        forall|i: int|
            0 <= i < before.len() && (#[trigger] before[i]).subject_id == key.subject_id
                ==> before[i].page > key.page,
    ensures
        forall|i: int|
            0 <= i < after.len() && (#[trigger] after[i]).subject_id == key.subject_id
                ==> after[i].page > key.page,
{
    if after != before {
        assert forall|i: int|
            0 <= i < after.len() && (#[trigger] after[i]).subject_id
                == key.subject_id implies after[i].page > key.page by {
            if i < before.len() {
                assert(after[i] == before[i]);
            } else {
                assert(after[i] == spec_next_page_key(key));
            }
        }
    }
}

/// Pagination ordering law, first half: a worker step for one page adds
/// nothing to the FIFO except, possibly, the immediately following page of
/// the same subject.  Page `p + 1` is queued only after page `p` has
/// finished.
pub proof fn lemma_pagination_continuation(
    before: Seq<WorkKey>,
    after: Seq<WorkKey>,
    key: WorkKey,
)
    requires
        key.page < u32::MAX,
        after == before || after == before.push(spec_next_page_key(key)),
    ensures
        forall|i: int|
            0 <= i < after.len() ==> before.contains(#[trigger] after[i]) || (
            after[i].subject_id == key.subject_id && after[i].page == key.page + 1),
{
    if after != before {
        assert forall|i: int|
            0 <= i < after.len() implies before.contains(#[trigger] after[i]) || (
            after[i].subject_id == key.subject_id && after[i].page == key.page + 1) by {
            if i < before.len() {
                assert(after[i] == before[i]);
            }
        }
    }
}

} // verus!
