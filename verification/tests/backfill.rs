use ethereum_forum::backfill::{
    backfill_enqueue_page, backfill_walk_step, should_backfill, ListingEntry, ListingOutcome,
    WalkAction, LISTING_ABORT_DELAY_SECS, LISTING_PAGE_DELAY_SECS,
};
use ethereum_forum::dedup::{DedupQueue, WorkKey};
use ethereum_forum::staleness::{LocalRecord, RemoteSummary};

fn entry(subject_id: i64, stored: Option<i64>, remote_count: i64) -> ListingEntry {
    let local = stored.map(|count| LocalRecord {
        remote_id: subject_id,
        item_count: count,
        last_activity_at: Some(100),
        title: String::from("t"),
        slug: String::from("t"),
    });
    let local_children = match stored {
        Some(count) if count >= 0 => count as u64,
        _ => 0,
    };
    ListingEntry {
        subject_id,
        summary: RemoteSummary { remote_id: subject_id, item_count: remote_count, last_activity_at: 100 },
        local,
        local_children,
    }
}

#[test]
fn backfill_runs_only_on_empty_store() {
    assert!(should_backfill(0));
    assert!(!should_backfill(1));
    assert!(!should_backfill(250));
}

#[test]
fn listing_page_queues_only_stale_subjects() {
    let mut q = DedupQueue::new();
    let entries = vec![
        entry(1, None, 5),      // unknown: queued
        entry(2, Some(5), 5),   // up to date: skipped
        entry(3, Some(3), 9),   // stale: queued
    ];
    let queued = backfill_enqueue_page(&mut q, &entries);
    assert_eq!(queued, 2);
    assert_eq!(q.dequeue().unwrap(), WorkKey { subject_id: 1, page: 1 });
    assert_eq!(q.dequeue().unwrap(), WorkKey { subject_id: 3, page: 1 });
    assert!(q.dequeue().is_none());
}

#[test]
fn listing_page_coalesces_with_inflight_work() {
    let mut q = DedupQueue::new();
    assert!(q.enqueue(WorkKey { subject_id: 1, page: 1 }));
    let entries = vec![entry(1, None, 5)];
    let queued = backfill_enqueue_page(&mut q, &entries);
    assert_eq!(queued, 0);
    assert_eq!(q.pending_len(), 1);
}

#[test]
fn walk_continues_after_page_with_more() {
    let mut q = DedupQueue::new();
    let outcome = ListingOutcome::Page { entries: vec![entry(1, None, 5)], more: true };
    let action = backfill_walk_step(&mut q, &outcome);
    assert_eq!(action, WalkAction::Continue { delay_secs: LISTING_PAGE_DELAY_SECS });
    assert_eq!(q.pending_len(), 1);
}

#[test]
fn walk_finishes_on_last_page() {
    let mut q = DedupQueue::new();
    let outcome = ListingOutcome::Page { entries: vec![], more: false };
    let action = backfill_walk_step(&mut q, &outcome);
    assert_eq!(action, WalkAction::Finished);
}

#[test]
fn walk_aborts_on_error_without_queueing() {
    let mut q = DedupQueue::new();
    let action = backfill_walk_step(&mut q, &ListingOutcome::Failed);
    assert_eq!(action, WalkAction::Abort { delay_secs: LISTING_ABORT_DELAY_SECS });
    assert_eq!(q.pending_len(), 0);
}

#[test]
fn walker_delays_respect_rate_limits() {
    assert_eq!(LISTING_PAGE_DELAY_SECS, 2);
    assert_eq!(LISTING_ABORT_DELAY_SECS, 5);
}
