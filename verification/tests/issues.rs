use ethereum_forum::dedup::{DedupQueue, WorkKey};
use ethereum_forum::github::{plan_issue_comments, plan_issues_page, CommentsDecision, IssueSummary};

fn issue(number: i64, updated_at: i64, is_pull_request: bool) -> IssueSummary {
    IssueSummary { number, updated_at, is_pull_request }
}

#[test]
fn issues_page_upserts_and_queues_only_updated_ones() {
    let mut q = DedupQueue::new();
    let issues = vec![
        issue(1, 500, false), // known, unchanged: no write, no comment fetch
        issue(2, 900, false), // known, newer: stored and comment fetch queued
        issue(3, 100, true),  // a pull request: passed over entirely
        issue(4, 100, false), // unknown: stored and comment fetch queued
    ];
    let existing = vec![Some(500), Some(800), None, None];
    let plan = plan_issues_page(&mut q, &issues, &existing, 100);
    assert_eq!(plan.upserts, vec![false, true, false, true]);
    assert!(!plan.fetch_next); // four issues, pages hold a hundred
    assert_eq!(q.dequeue().unwrap(), WorkKey { subject_id: 2, page: 1 });
    assert_eq!(q.dequeue().unwrap(), WorkKey { subject_id: 4, page: 1 });
    assert!(q.dequeue().is_none());
}

#[test]
fn comments_only_for_stored_issues() {
    assert_eq!(plan_issue_comments(false, true), CommentsDecision::Fetch);
    assert_eq!(plan_issue_comments(false, false), CommentsDecision::SkipUnknown);
    assert_eq!(plan_issue_comments(true, true), CommentsDecision::FailLookup);
    assert_eq!(plan_issue_comments(true, false), CommentsDecision::FailLookup);
}

#[test]
fn full_issues_page_continues_pagination() {
    let mut q = DedupQueue::new();
    let issues: Vec<IssueSummary> = (1..=100).map(|n| issue(n, 1, false)).collect();
    let existing: Vec<Option<i64>> = (1..=100).map(|_| Some(1)).collect();
    let plan = plan_issues_page(&mut q, &issues, &existing, 100);
    assert!(plan.fetch_next);
    // Nothing had news, so nothing was queued.
    assert_eq!(q.pending_len(), 0);
}

#[test]
fn issues_page_coalesces_with_inflight_comment_fetch() {
    let mut q = DedupQueue::new();
    assert!(q.enqueue(WorkKey { subject_id: 2, page: 1 }));
    let issues = vec![issue(2, 900, false)];
    let existing = vec![None];
    let plan = plan_issues_page(&mut q, &issues, &existing, 100);
    assert_eq!(plan.upserts, vec![true]);
    assert_eq!(q.pending_len(), 1);
}
