use ethereum_forum::dedup::{DedupQueue, WorkKey};

fn key(subject_id: i64, page: u32) -> WorkKey {
    WorkKey { subject_id, page }
}

#[test]
fn enqueue_produces_one_request_per_outstanding_key() {
    let mut q = DedupQueue::new();
    assert!(q.enqueue(key(7, 1)));
    // While (7, 1) is outstanding, any number of further enqueues coalesce.
    assert!(!q.enqueue(key(7, 1)));
    assert!(!q.enqueue(key(7, 1)));
    assert_eq!(q.pending_len(), 1);
    // A different key is its own unit of work.
    assert!(q.enqueue(key(7, 2)));
    assert_eq!(q.pending_len(), 2);
}

#[test]
fn key_stays_outstanding_across_dequeue() {
    let mut q = DedupQueue::new();
    assert!(q.enqueue(key(3, 1)));
    let taken = q.dequeue().unwrap();
    assert_eq!(taken, key(3, 1));
    assert_eq!(q.pending_len(), 0);
    // Still outstanding: the same key cannot be queued again yet.
    assert!(!q.enqueue(key(3, 1)));
    assert_eq!(q.pending_len(), 0);
}

#[test]
fn release_permits_a_new_request() {
    let mut q = DedupQueue::new();
    assert!(q.enqueue(key(3, 1)));
    let _ = q.dequeue().unwrap();
    assert!(!q.enqueue(key(3, 1)));
    q.release(key(3, 1));
    // After release, an enqueue of the same key produces a new request.
    assert!(q.enqueue(key(3, 1)));
    assert_eq!(q.pending_len(), 1);
}

#[test]
fn dequeue_is_fifo() {
    let mut q = DedupQueue::new();
    assert!(q.enqueue(key(1, 1)));
    assert!(q.enqueue(key(2, 1)));
    assert!(q.enqueue(key(3, 1)));
    assert_eq!(q.dequeue().unwrap(), key(1, 1));
    assert_eq!(q.dequeue().unwrap(), key(2, 1));
    assert_eq!(q.dequeue().unwrap(), key(3, 1));
    assert!(q.dequeue().is_none());
}
