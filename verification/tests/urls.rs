use ethereum_forum::fetch::{listing_url, topic_page_url};

#[test]
fn topic_page_urls() {
    let base = String::from("https://ethereum-magicians.org");
    assert_eq!(
        topic_page_url(&base, 1234, 2),
        "https://ethereum-magicians.org/t/1234.json?page=2"
    );
}

#[test]
fn first_listing_page_url() {
    let base = String::from("https://ethereum-magicians.org");
    assert_eq!(listing_url(&base, None), "https://ethereum-magicians.org/latest.json");
}

#[test]
fn latest_continuation_carries_its_query() {
    let base = String::from("https://ethereum-magicians.org");
    let more = String::from("/latest?no_definitions=true&page=1");
    assert_eq!(
        listing_url(&base, Some(&more)),
        "https://ethereum-magicians.org/latest.json?no_definitions=true&page=1"
    );
}

#[test]
fn bare_latest_continuation_restarts() {
    let base = String::from("https://ethereum-magicians.org");
    let more = String::from("/latest");
    assert_eq!(listing_url(&base, Some(&more)), "https://ethereum-magicians.org/latest.json");
}

#[test]
fn foreign_continuation_is_followed_as_given() {
    let base = String::from("https://ethereum-magicians.org");
    let more = String::from("/top.json?period=weekly");
    assert_eq!(
        listing_url(&base, Some(&more)),
        "https://ethereum-magicians.org/top.json?period=weekly"
    );
}
