use ethereum_forum::discourse::{
    create_discourse_configs, DiscourseConfig, DiscourseIndexer, DiscourseService,
};
use ethereum_forum::github::{GithubConfig, GithubIndexer, GithubService};

fn service() -> DiscourseService {
    DiscourseService::new(create_discourse_configs())
}

#[test]
fn static_configs_name_both_forums() {
    let configs = create_discourse_configs();
    assert_eq!(configs.len(), 2);
    assert_eq!(configs[0].discourse_id, "magicians");
    assert_eq!(configs[0].url, "https://ethereum-magicians.org");
    assert_eq!(configs[0].scrape_interval, "30m");
    assert_eq!(configs[1].discourse_id, "research");
    assert_eq!(configs[1].url, "https://ethresear.ch");
    assert_eq!(configs[1].scrape_interval, "30m");
}

#[test]
fn enqueue_rejects_unknown_instance() {
    let mut s = service();
    let r = s.enqueue(&String::from("nowhere"), 12, 1);
    let e = r.err().expect("unknown instance must be rejected");
    assert_eq!(e.instance_id, "nowhere");
}

#[test]
fn enqueue_reaches_the_named_instance() {
    let mut s = service();
    assert!(s.enqueue(&String::from("magicians"), 12, 1).is_ok());
    assert!(s.enqueue(&String::from("research"), 12, 1).is_ok());
    let magicians = &mut s.indexers[0];
    let taken = magicians.dequeue().expect("a request was queued");
    assert_eq!(taken.topic_id, 12);
    assert_eq!(taken.page, 1);
    assert!(magicians.dequeue().is_none());
}

#[test]
fn instance_url_lookup() {
    let s = service();
    let url = s.get_discourse_url(&String::from("research"));
    assert_eq!(url.unwrap(), "https://ethresear.ch");
    assert!(s.get_discourse_url(&String::from("nowhere")).is_none());
}

#[test]
fn indexer_coalesces_identical_topic_pages() {
    let mut w = DiscourseIndexer::new(DiscourseConfig {
        discourse_id: String::from("magicians"),
        url: String::from("https://ethereum-magicians.org"),
        scrape_interval: String::from("30m"),
    });
    assert!(w.enqueue(5, 1));
    assert!(!w.enqueue(5, 1));
    assert!(w.enqueue(5, 2));
}

#[test]
fn github_enqueue_rejects_unknown_repository() {
    let indexer = GithubIndexer::new(GithubConfig {
        owner: String::from("ethereum"),
        repo: String::from("pm"),
        scrape_interval: String::from("30m"),
    });
    let mut s = GithubService::new(vec![indexer]);
    let r = s.enqueue(&String::from("ethereum"), &String::from("evmone"), Some(3));
    let e = r.err().expect("unknown repository must be rejected");
    assert_eq!(e.instance_id, "ethereum/evmone");
}

#[test]
fn github_enqueue_coalesces_by_issue() {
    let indexer = GithubIndexer::new(GithubConfig {
        owner: String::from("ethereum"),
        repo: String::from("pm"),
        scrape_interval: String::from("30m"),
    });
    let mut s = GithubService::new(vec![indexer]);
    assert!(s.enqueue(&String::from("ethereum"), &String::from("pm"), Some(3)).is_ok());
    assert!(s.enqueue(&String::from("ethereum"), &String::from("pm"), Some(3)).is_ok());
    assert!(s.enqueue(&String::from("ethereum"), &String::from("pm"), None).is_ok());
    // One request for issue 3, one for the repository walk.
    assert_eq!(s.indexers[0].queue.pending_len(), 2);
}
