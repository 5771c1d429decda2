//! Search-index projections: the write-only documents derived from stored
//! topics and posts, keyed by a stable composite id so that repeated
//! upserts are idempotent.

use vstd::prelude::*;

use crate::html::plain_text_of;
use crate::html::strip_html_tags;
use crate::numfmt::i64_to_string;
use crate::numfmt::spec_i64_string;

verus! {

/// A stored forum topic, as far as the search and preview projections read
/// it.
#[derive(Clone, Debug)]
pub struct TopicRecord {
    pub discourse_id: String,
    pub topic_id: i32,
    pub title: String,
    pub slug: String,
    pub pm_issue: Option<i32>,
    pub view_count: i32,
    pub like_count: i32,
}

/// A stored forum post, as far as the search projection reads it.  The
/// `extra_username` is the author name the stored extra data carries, when
/// it carries one.
#[derive(Clone, Debug)]
pub struct PostRecord {
    pub discourse_id: String,
    pub post_id: i32,
    pub topic_id: i32,
    pub user_id: i32,
    pub post_number: i32,
    pub cooked: Option<String>,
    pub extra_username: Option<String>,
}

/// One document sent to the search collaborator's forum index.
#[derive(Debug)]
pub struct ForumSearchDocument {
    pub entity_type: String,
    pub discourse_id: Option<String>,
    pub topic_id: Option<i32>,
    pub post_id: Option<i32>,
    pub post_number: Option<i32>,
    pub user_id: Option<i32>,
    pub username: Option<String>,
    pub title: Option<String>,
    pub slug: Option<String>,
    pub pm_issue: Option<i32>,
    pub cooked: Option<String>,
    pub entity_id: String,
}

/// The composite id under which an entity is upserted: its kind and its
/// number.
pub open spec fn spec_entity_id(prefix: Seq<char>, id: int) -> Seq<char> {
    prefix + spec_i64_string(id)
}

/// Field-by-field description of the document projected from a topic.
pub open spec fn spec_topic_doc_matches(t: TopicRecord, d: ForumSearchDocument) -> bool {
    &&& d.entity_type@ == "topic"@
    &&& d.discourse_id matches Some(i) && i@ == t.discourse_id@
    &&& d.topic_id == Some(t.topic_id)
    &&& d.post_id is None
    &&& d.post_number is None
    &&& d.user_id is None
    &&& d.username is None
    &&& d.title matches Some(ti) && ti@ == t.title@
    &&& d.slug matches Some(s) && s@ == t.slug@
    &&& d.pm_issue == t.pm_issue
    &&& d.cooked is None
    &&& d.entity_id@ == spec_entity_id("topic_"@, t.topic_id as int)
}

/// Field-by-field description of the document projected from a post; the
/// post's body is indexed with its markup stripped.
pub open spec fn spec_post_doc_matches(
    p: PostRecord,
    username: Option<Seq<char>>,
    d: ForumSearchDocument,
) -> bool {
    &&& d.entity_type@ == "post"@
    &&& d.discourse_id matches Some(i) && i@ == p.discourse_id@
    &&& d.topic_id == Some(p.topic_id)
    &&& d.post_id == Some(p.post_id)
    &&& d.post_number == Some(p.post_number)
    &&& d.user_id == Some(p.user_id)
    &&& match username {
        Some(u) => d.username matches Some(du) && du@ == u,
        None => d.username is None,
    }
    &&& d.title is None
    &&& d.slug is None
    &&& d.pm_issue is None
    &&& match p.cooked {
        Some(c) => d.cooked matches Some(dc) && dc@ == plain_text_of(c@),
        None => d.cooked is None,
    }
    &&& d.entity_id@ == spec_entity_id("post_"@, p.post_id as int)
}

/// Projects a topic record into its search document.
pub fn topic_document(topic: &TopicRecord) -> (d: ForumSearchDocument)
    ensures
        spec_topic_doc_matches(*topic, d),
{
    let mut entity_id = "topic_".to_owned();
    let digits = i64_to_string(topic.topic_id as i64);
    entity_id.append(digits.as_str());
    ForumSearchDocument {
        entity_type: "topic".to_owned(),
        discourse_id: Some(topic.discourse_id.clone()),
        topic_id: Some(topic.topic_id),
        post_id: None,
        post_number: None,
        user_id: None,
        username: None,
        title: Some(topic.title.clone()),
        slug: Some(topic.slug.clone()),
        pm_issue: topic.pm_issue,
        cooked: None,
        entity_id,
    }
}

/// Projects a post record into its search document, under the given author
/// name; the body, when stored, is indexed as plain text.
pub fn post_document(post: &PostRecord, username: Option<String>) -> (d: ForumSearchDocument)
    ensures
        spec_post_doc_matches(
            *post,
            match username {
                Some(u) => Some(u@),
                None => None,
            },
            d,
        ),
{
    let mut entity_id = "post_".to_owned();
    let digits = i64_to_string(post.post_id as i64);
    entity_id.append(digits.as_str());
    let cooked = match &post.cooked {
        Some(c) => Some(strip_html_tags(c.as_str())),
        None => None,
    };
    ForumSearchDocument {
        entity_type: "post".to_owned(),
        discourse_id: Some(post.discourse_id.clone()),
        topic_id: Some(post.topic_id),
        post_id: Some(post.post_id),
        post_number: Some(post.post_number),
        user_id: Some(post.user_id),
        username,
        title: None,
        slug: None,
        pm_issue: None,
        cooked,
        entity_id,
    }
}

} // verus!
