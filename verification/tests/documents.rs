use ethereum_forum::admin::{
    build_user_mapping_from_posts, post_documents, reindex_summary, topic_documents,
    usage_totals, UserUsageOverview,
};
use ethereum_forum::numfmt::{format_count, i64_to_string, u64_to_string};
use ethereum_forum::search::{post_document, topic_document, PostRecord, TopicRecord};

fn topic(topic_id: i32) -> TopicRecord {
    TopicRecord {
        discourse_id: String::from("magicians"),
        topic_id,
        title: String::from("EIP discussion"),
        slug: String::from("eip-discussion"),
        pm_issue: Some(12),
        view_count: 1500,
        like_count: 999,
    }
}

fn post(post_id: i32, user_id: i32, username: Option<&str>) -> PostRecord {
    PostRecord {
        discourse_id: String::from("magicians"),
        post_id,
        topic_id: 4,
        user_id,
        post_number: 2,
        cooked: Some(String::from("<p>Hello <b>world</b></p>")),
        extra_username: username.map(String::from),
    }
}

#[test]
fn decimal_rendering() {
    assert_eq!(u64_to_string(0), "0");
    assert_eq!(u64_to_string(7), "7");
    assert_eq!(u64_to_string(1234567890), "1234567890");
    assert_eq!(i64_to_string(-42), "-42");
    assert_eq!(i64_to_string(9), "9");
    assert_eq!(i64_to_string(i64::MIN), "-9223372036854775808");
}

#[test]
fn count_abbreviation() {
    assert_eq!(format_count(0), "0");
    assert_eq!(format_count(999), "999");
    assert_eq!(format_count(1000), "1k");
    assert_eq!(format_count(1500), "1k");
    assert_eq!(format_count(999999), "999k");
    assert_eq!(format_count(-5), "-5");
}

#[test]
fn topic_document_fields() {
    let d = topic_document(&topic(67));
    assert_eq!(d.entity_type, "topic");
    assert_eq!(d.discourse_id.as_deref(), Some("magicians"));
    assert_eq!(d.topic_id, Some(67));
    assert_eq!(d.title.as_deref(), Some("EIP discussion"));
    assert_eq!(d.slug.as_deref(), Some("eip-discussion"));
    assert_eq!(d.pm_issue, Some(12));
    assert_eq!(d.entity_id, "topic_67");
    assert!(d.post_id.is_none() && d.cooked.is_none() && d.username.is_none());
}

#[test]
fn post_document_strips_markup() {
    let d = post_document(&post(31, 9, None), Some(String::from("vitalik")));
    assert_eq!(d.entity_type, "post");
    assert_eq!(d.entity_id, "post_31");
    assert_eq!(d.username.as_deref(), Some("vitalik"));
    // The indexed body is the cooked HTML with its tags stripped.
    assert_eq!(d.cooked.as_deref(), Some("Hello world"));
}

#[test]
fn user_mapping_last_name_wins() {
    let posts = vec![
        post(1, 9, Some("old-name")),
        post(2, 8, None),
        post(3, 9, Some("new-name")),
    ];
    let mapping = build_user_mapping_from_posts(&posts);
    assert_eq!(mapping.get(9).map(String::as_str), Some("new-name"));
    assert_eq!(mapping.get(8), None);
    assert_eq!(mapping.get(7), None);
}

#[test]
fn reindex_batches_carry_usernames_from_mapping() {
    let posts = vec![post(1, 9, Some("someone")), post(2, 8, None)];
    let mapping = build_user_mapping_from_posts(&posts);
    let docs = post_documents(&posts, &mapping);
    assert_eq!(docs.len(), 2);
    assert_eq!(docs[0].username.as_deref(), Some("someone"));
    assert!(docs[1].username.is_none());
    let tdocs = topic_documents(&vec![topic(1), topic(2)]);
    assert_eq!(tdocs.len(), 2);
    assert_eq!(tdocs[1].entity_id, "topic_2");
}

#[test]
fn reindex_summary_messages() {
    let ok = reindex_summary(12, 345, 0);
    assert!(ok.success);
    assert_eq!(ok.message, "Successfully reindexed 12 topics and 345 posts");
    let bad = reindex_summary(12, 345, 3);
    assert!(!bad.success);
    assert_eq!(
        bad.message,
        "Reindexing completed with 3 errors. Processed 12 topics and 345 posts"
    );
}

#[test]
fn usage_totals_sum_each_counter() {
    let users = vec![
        UserUsageOverview {
            user_id: String::from("a"),
            total_tokens: 30,
            prompt_tokens: 10,
            completion_tokens: 15,
            reasoning_tokens: 5,
        },
        UserUsageOverview {
            user_id: String::from("b"),
            total_tokens: 70,
            prompt_tokens: 40,
            completion_tokens: 20,
            reasoning_tokens: 10,
        },
    ];
    let r = usage_totals(users);
    assert_eq!(r.total_users, 2);
    assert_eq!(r.total_tokens, 100);
    assert_eq!(r.total_prompt_tokens, 50);
    assert_eq!(r.total_completion_tokens, 35);
    assert_eq!(r.total_reasoning_tokens, 15);
    assert_eq!(r.users.len(), 2);
}
