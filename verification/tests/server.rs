use ethereum_forum::github::{issue_should_update, more_pages};
use ethereum_forum::server::{discourse_instance_for_host, page_for_post_number, PostsResponse};

#[test]
fn webhook_post_page_computation() {
    // Twenty posts a page: post 1 through 20 sit on page 1.
    assert_eq!(page_for_post_number(1), 1);
    assert_eq!(page_for_post_number(20), 1);
    assert_eq!(page_for_post_number(21), 2);
    assert_eq!(page_for_post_number(41), 3);
    // A missing or nonsensical post number counts as the first post.
    assert_eq!(page_for_post_number(0), 1);
    assert_eq!(page_for_post_number(-7), 1);
}

#[test]
fn webhook_host_mapping() {
    let local = discourse_instance_for_host(&String::from("http://localhost"));
    assert_eq!(local.as_deref(), Some("magicians"));
    let prod = discourse_instance_for_host(&String::from("https://ethereum-magicians.org"));
    assert_eq!(prod.as_deref(), Some("magicians"));
    assert!(discourse_instance_for_host(&String::from("https://example.org")).is_none());
}

#[test]
fn issue_update_decision() {
    assert!(issue_should_update(None, 100));
    assert!(issue_should_update(Some(99), 100));
    assert!(!issue_should_update(Some(100), 100));
    assert!(!issue_should_update(Some(101), 100));
}

#[test]
fn pagination_continues_only_on_full_pages() {
    assert!(more_pages(100, 100));
    assert!(!more_pages(99, 100));
    assert!(!more_pages(0, 100));
}

#[test]
fn posts_response_holds_page_and_flag() {
    let r = PostsResponse { posts: Vec::new(), has_more: false };
    assert!(r.posts.is_empty());
    assert!(!r.has_more);
}
