use ethereum_forum::dedup::{DedupQueue, WorkKey};
use ethereum_forum::staleness::{needs_refetch, LocalRecord, RemoteSummary};
use ethereum_forum::worker::{process_work_item, FetchOutcome, FetchedPage, WorkItemState};

fn key(subject_id: i64, page: u32) -> WorkKey {
    WorkKey { subject_id, page }
}

fn local(item_count: i64, last_activity_at: Option<i64>) -> LocalRecord {
    LocalRecord {
        remote_id: 7,
        item_count,
        last_activity_at,
        title: String::from("A topic"),
        slug: String::from("a-topic"),
    }
}

fn summary(item_count: i64, last_activity_at: i64) -> RemoteSummary {
    RemoteSummary { remote_id: 7, item_count, last_activity_at }
}

#[test]
fn staleness_trigger_on_count_mismatch() {
    // Ten items stored, twelve reported remotely: worth re-fetching.
    let l = local(10, Some(500));
    let r = summary(12, 500);
    assert!(needs_refetch(Some(&l), 10, &r));
}

#[test]
fn staleness_skip_when_fresh() {
    // Same counts, no newer activity, all children stored: left alone.
    let l = local(10, Some(500));
    let r = summary(10, 500);
    assert!(!needs_refetch(Some(&l), 10, &r));
}

#[test]
fn staleness_trigger_without_record() {
    let r = summary(1, 0);
    assert!(needs_refetch(None, 0, &r));
}

#[test]
fn staleness_trigger_on_newer_activity() {
    let l = local(10, Some(500));
    let r = summary(10, 501);
    assert!(needs_refetch(Some(&l), 10, &r));
}

#[test]
fn staleness_trigger_on_missing_children() {
    let l = local(10, Some(500));
    let r = summary(10, 500);
    assert!(needs_refetch(Some(&l), 9, &r));
}

#[test]
fn fresh_topic_causes_no_writes_and_no_continuation() {
    let mut q = DedupQueue::new();
    assert!(q.enqueue(key(7, 1)));
    let k = q.dequeue().unwrap();
    let l = local(10, Some(500));
    let outcome = FetchOutcome::Success(FetchedPage { summary: summary(10, 500), page_item_count: 10 });
    let step = process_work_item(&mut q, k, Some(&l), 10, &outcome);
    assert_eq!(step.state, WorkItemState::Stored);
    assert!(!step.refetched);
    assert!(!step.upsert_record);
    assert!(!step.upsert_children);
    assert!(!step.enqueue_next);
    assert_eq!(q.pending_len(), 0);
    // The key stays outstanding until the loop releases it after the
    // (absent) writes; only then can a new request be queued.
    assert!(!q.enqueue(key(7, 1)));
    q.release(k);
    assert!(q.enqueue(key(7, 1)));
}

#[test]
fn stale_topic_stores_and_extends_chain() {
    let mut q = DedupQueue::new();
    assert!(q.enqueue(key(7, 1)));
    let k = q.dequeue().unwrap();
    let l = local(10, Some(500));
    let outcome = FetchOutcome::Success(FetchedPage { summary: summary(12, 900), page_item_count: 20 });
    let step = process_work_item(&mut q, k, Some(&l), 10, &outcome);
    assert_eq!(step.state, WorkItemState::Stored);
    assert!(step.refetched);
    assert!(step.upsert_record); // first page
    assert!(step.upsert_children);
    assert!(step.enqueue_next);
    q.release(k);
    assert_eq!(q.dequeue().unwrap(), key(7, 2));
}

#[test]
fn later_page_never_overwrites_record() {
    let mut q = DedupQueue::new();
    assert!(q.enqueue(key(7, 3)));
    let k = q.dequeue().unwrap();
    let outcome = FetchOutcome::Success(FetchedPage { summary: summary(12, 900), page_item_count: 20 });
    let step = process_work_item(&mut q, k, None, 0, &outcome);
    assert!(step.refetched);
    assert!(!step.upsert_record); // not the first page
    assert!(step.upsert_children);
    q.release(k);
    assert_eq!(q.dequeue().unwrap(), key(7, 4));
}

#[test]
fn empty_page_ends_chain() {
    let mut q = DedupQueue::new();
    assert!(q.enqueue(key(7, 2)));
    let k = q.dequeue().unwrap();
    let outcome = FetchOutcome::Success(FetchedPage { summary: summary(12, 900), page_item_count: 0 });
    let step = process_work_item(&mut q, k, None, 0, &outcome);
    assert!(step.refetched);
    assert!(!step.enqueue_next);
    q.release(k);
    assert!(q.dequeue().is_none());
}

#[test]
fn pagination_chain_processes_pages_in_order() {
    // A subject whose pages 1..=5 all report content: the worker fetches
    // them strictly in order, each page queued only after the previous one
    // finished.
    let mut q = DedupQueue::new();
    assert!(q.enqueue(key(42, 1)));
    let mut fetched_pages: Vec<u32> = Vec::new();
    while let Some(k) = q.dequeue() {
        fetched_pages.push(k.page);
        let outcome = if k.page <= 5 {
            FetchOutcome::Success(FetchedPage { summary: summary(100, 900), page_item_count: 20 })
        } else {
            FetchOutcome::Success(FetchedPage { summary: summary(100, 900), page_item_count: 0 })
        };
        process_work_item(&mut q, k, None, 0, &outcome);
        q.release(k);
    }
    assert_eq!(fetched_pages, vec![1, 2, 3, 4, 5, 6]);
}

#[test]
fn transport_error_aborts_only_its_item() {
    // Two independent requests; the first fails on the wire.
    let mut q = DedupQueue::new();
    assert!(q.enqueue(key(1, 1)));
    assert!(q.enqueue(key(2, 1)));
    let k1 = q.dequeue().unwrap();
    let step = process_work_item(&mut q, k1, None, 0, &FetchOutcome::TransportError);
    assert_eq!(step.state, WorkItemState::FetchFailed);
    assert!(!step.upsert_record && !step.upsert_children && !step.enqueue_next);
    q.release(k1);
    // The second request is still there and processes normally.
    let k2 = q.dequeue().unwrap();
    assert_eq!(k2, key(2, 1));
    let outcome = FetchOutcome::Success(FetchedPage { summary: summary(3, 10), page_item_count: 3 });
    let step2 = process_work_item(&mut q, k2, None, 0, &outcome);
    assert_eq!(step2.state, WorkItemState::Stored);
    assert!(step2.upsert_record);
    // The failed key was released after its step: the next periodic
    // trigger can requeue it.
    assert!(q.enqueue(key(1, 1)));
}

#[test]
fn parse_error_aborts_only_its_item() {
    let mut q = DedupQueue::new();
    assert!(q.enqueue(key(1, 1)));
    let k = q.dequeue().unwrap();
    let step = process_work_item(&mut q, k, None, 0, &FetchOutcome::ParseError);
    assert_eq!(step.state, WorkItemState::ParseFailed);
    assert!(!step.upsert_record && !step.upsert_children && !step.enqueue_next);
    q.release(k);
    assert!(q.enqueue(key(1, 1)));
}
