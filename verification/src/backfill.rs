//! The backfill walker: the one-shot crawl of a source's listing pagination
//! chain that seeds the work queue on first encounter, and the pacing and
//! abort discipline it follows.

use vstd::prelude::*;

use crate::dedup::DedupQueue;
use crate::dedup::WorkKey;
use crate::staleness::needs_refetch;
use crate::staleness::spec_needs_refetch;
use crate::staleness::LocalRecord;
use crate::staleness::RemoteSummary;

verus! {

/// Seconds the walker waits between successive listing pages, to respect
/// remote rate limits.
pub const LISTING_PAGE_DELAY_SECS: u64 = 2;

/// Seconds the walker waits after a transport or parse error before giving
/// the walk up to the next scheduled attempt.
pub const LISTING_ABORT_DELAY_SECS: u64 = 5;

/// One subject discovered on a listing page, paired with what the local
/// store knows about it.
pub struct ListingEntry {
    pub subject_id: i64,
    pub summary: RemoteSummary,
    pub local: Option<LocalRecord>,
    pub local_children: u64,
}

/// One fetched listing page, or the failure that ended the walk.
pub enum ListingOutcome {
    Page { entries: Vec<ListingEntry>, more: bool },
    Failed,
}

/// What the walker does after a listing page: fetch the next page after a
/// rate-limiting delay, stop because the chain is exhausted, or abort the
/// whole walk after a longer delay, leaving re-discovery to the scheduler.
#[derive(Clone, Copy, Debug, PartialEq, Eq, Structural)]
pub enum WalkAction {
    Continue { delay_secs: u64 },
    Finished,
    Abort { delay_secs: u64 },
}

/// The work key that backfills a discovered subject: its first page.
pub open spec fn spec_entry_key(e: ListingEntry) -> WorkKey {
    WorkKey { subject_id: e.subject_id, page: 1u32 }
}

/// Whether a discovered subject is worth queueing, by the staleness
/// decision.
pub open spec fn spec_entry_wanted(e: ListingEntry) -> bool {
    spec_needs_refetch(e.local, e.local_children, e.summary)
}

/// The queue contents after offering every entry of a listing page, in
/// order: each wanted entry's first page is enqueued unless its key is
/// already outstanding.
pub open spec fn spec_backfill(
    pending: Seq<WorkKey>,
    outstanding: Seq<WorkKey>,
    entries: Seq<ListingEntry>,
) -> (Seq<WorkKey>, Seq<WorkKey>)
    decreases entries.len(),
{
    if entries.len() == 0 {
        (pending, outstanding)
    } else {
        let e = entries[0];
        let k = spec_entry_key(e);
        if spec_entry_wanted(e) && !outstanding.contains(k) {
            spec_backfill(pending.push(k), outstanding.push(k), entries.drop_first())
        } else {
            spec_backfill(pending, outstanding, entries.drop_first())
        }
    }
}

/// Whether the backfill walk runs at all: only when the instance's local
/// store holds no records yet.  A warm store is left to incremental
/// re-polling.
pub fn should_backfill(record_count: u64) -> (r: bool)
    ensures
        r == (record_count == 0),
{
    record_count == 0
}

/// Offers every subject of one listing page to the queue: a subject the
/// staleness decision wants is enqueued at page 1, the rest are skipped.
/// Returns how many requests were newly queued.
pub fn backfill_enqueue_page(queue: &mut DedupQueue, entries: &Vec<ListingEntry>) -> (queued:
    usize)
    requires
        old(queue).wf(),
    ensures
        final(queue).wf(),
        (final(queue).pending(), final(queue).outstanding()) == spec_backfill(
            old(queue).pending(),
            old(queue).outstanding(),
            entries@,
        ),
        final(queue).pending().len() == old(queue).pending().len() + queued,
{
    let ghost p0 = old(queue).pending();
    let ghost o0 = old(queue).outstanding();
    let mut queued: usize = 0;
    let mut i: usize = 0;
    proof {
        assert(entries@.subrange(0, entries@.len() as int) =~= entries@);
    }
    while i < entries.len()
        invariant
            queue.wf(),
            i <= entries@.len(),
            queued <= i,
            queue.pending().len() == p0.len() + queued,
            spec_backfill(queue.pending(), queue.outstanding(), entries@.subrange(i as int, entries@.len() as int))
                == spec_backfill(p0, o0, entries@),
        decreases entries@.len() - i,
    {
        let ghost rest = entries@.subrange(i as int, entries@.len() as int);
        proof {
            assert(rest.drop_first() =~= entries@.subrange(i + 1, entries@.len() as int));
        }
        let e = &entries[i];
        let wanted = needs_refetch(e.local.as_ref(), e.local_children, &e.summary);
        if wanted {
            let fresh = queue.enqueue(WorkKey { subject_id: e.subject_id, page: 1 });
            if fresh {
                queued += 1;
            }
        }
        i += 1;
    }
    queued
}

/// One full walker step: give the listing page's subjects to the queue and
/// say how the walk goes on.  A page with a continuation is followed after
/// the rate-limiting delay; an exhausted chain finishes the walk; an error
/// aborts it after the longer delay, without queueing anything, and the
/// walk is not resumed until the scheduler starts it afresh.
pub fn backfill_walk_step(queue: &mut DedupQueue, outcome: &ListingOutcome) -> (action: WalkAction)
    requires
        old(queue).wf(),
    ensures
        final(queue).wf(),
        match *outcome {
            ListingOutcome::Page { ref entries, more } => {
                &&& (final(queue).pending(), final(queue).outstanding()) == spec_backfill(
                    old(queue).pending(),
                    old(queue).outstanding(),
                    entries@,
                )
                &&& action == if more {
                    WalkAction::Continue { delay_secs: LISTING_PAGE_DELAY_SECS }
                } else {
                    WalkAction::Finished
                }
            },
            ListingOutcome::Failed => {
                &&& *final(queue) == *old(queue)
                &&& action == WalkAction::Abort { delay_secs: LISTING_ABORT_DELAY_SECS }
            },
        },
{
    match outcome {
        ListingOutcome::Page { entries, more } => {
            backfill_enqueue_page(queue, entries);
            if *more {
                WalkAction::Continue { delay_secs: LISTING_PAGE_DELAY_SECS }
            } else {
                WalkAction::Finished
            }
        },
        ListingOutcome::Failed => WalkAction::Abort { delay_secs: LISTING_ABORT_DELAY_SECS },
    }
}

/// Backfill coverage law: after a listing page is offered to the queue,
/// the first page of every subject the staleness decision wanted is
/// outstanding, either because this walk queued it or because it already
/// was.
pub proof fn lemma_backfill_covers(
    pending: Seq<WorkKey>,
    outstanding: Seq<WorkKey>,
    entries: Seq<ListingEntry>,
)
    ensures
        forall|j: int|
            0 <= j < entries.len() && spec_entry_wanted(#[trigger] entries[j]) ==> spec_backfill(
                pending,
                outstanding,
                entries,
            ).1.contains(spec_entry_key(entries[j])),
    decreases entries.len(),
{
    if entries.len() > 0 {
        let e = entries[0];
        let k = spec_entry_key(e);
        if spec_entry_wanted(e) && !outstanding.contains(k) {
            lemma_backfill_covers(pending.push(k), outstanding.push(k), entries.drop_first());
            assert(outstanding.push(k).last() == k);
            lemma_backfill_outstanding_monotone(pending.push(k), outstanding.push(k), entries.drop_first(), k);
        } else {
            lemma_backfill_covers(pending, outstanding, entries.drop_first());
            if spec_entry_wanted(e) {
                lemma_backfill_outstanding_monotone(pending, outstanding, entries.drop_first(), k);
            }
        }
        assert forall|j: int|
            0 <= j < entries.len() && spec_entry_wanted(#[trigger] entries[j]) implies spec_backfill(
            pending,
            outstanding,
            entries,
        ).1.contains(spec_entry_key(entries[j])) by {
            if j > 0 {
                assert(entries.drop_first()[j - 1] == entries[j]);
            }
        }
    }
}

/// A key that is outstanding stays outstanding through a backfill fold.
proof fn lemma_backfill_outstanding_monotone(
    pending: Seq<WorkKey>,
    outstanding: Seq<WorkKey>,
    entries: Seq<ListingEntry>,
    k: WorkKey,
)
    requires
        outstanding.contains(k),
    ensures
        spec_backfill(pending, outstanding, entries).1.contains(k),
    decreases entries.len(),
{
    if entries.len() > 0 {
        let e = entries[0];
        let ek = spec_entry_key(e);
        if spec_entry_wanted(e) && !outstanding.contains(ek) {
            let j = choose|j: int| 0 <= j < outstanding.len() && outstanding[j] == k;
            assert(outstanding.push(ek)[j] == k);
            lemma_backfill_outstanding_monotone(
                pending.push(ek),
                outstanding.push(ek),
                entries.drop_first(),
                k,
            );
        } else {
            lemma_backfill_outstanding_monotone(pending, outstanding, entries.drop_first(), k);
        }
    }
}

} // verus!
