//! Types the HTTP layer exchanges with the library, and the decisions the
//! webhook handlers make when translating push events into index requests.

use vstd::prelude::*;

use crate::search::PostRecord;

verus! {

/// How many posts a remote forum serves per topic page; webhook events
/// name a post, and the page that holds it is re-fetched.
pub const POSTS_PER_PAGE: i32 = 20;

/// Connection configuration of the storage collaborator.
#[derive(Clone, Debug)]
pub struct DatabaseConfig {
    pub url: String,
}

/// One page of a topic's posts as the read API serves it, with whether
/// more pages follow.
#[derive(Debug)]
pub struct PostsResponse {
    pub posts: Vec<PostRecord>,
    pub has_more: bool,
}

/// The topic page on which a given post stands.
pub open spec fn spec_page_for_post_number(post_number: int) -> int {
    (if post_number < 1 {
        0
    } else {
        (post_number - 1) / POSTS_PER_PAGE as int
    }) + 1
}

/// On which topic page a webhook-reported post stands: posts come twenty a
/// page, and a post number below one counts as the first post.
pub fn page_for_post_number(post_number: i32) -> (page: u32)
    ensures
        page == spec_page_for_post_number(post_number as int),
        page >= 1,
{
    let n = if post_number > 1 {
        post_number
    } else {
        1
    };
    (((n - 1) / POSTS_PER_PAGE) + 1) as u32
}

/// The instance id a webhook's origin host maps to: only the known forum
/// deployments are accepted.
pub fn discourse_instance_for_host(host: &String) -> (r: Option<String>)
    ensures
        (r is Some) == (host@ == "http://localhost"@ || host@
            == "https://ethereum-magicians.org"@),
        r matches Some(id) ==> id@ == "magicians"@,
{
    let localhost = "http://localhost".to_owned();
    let magicians = "https://ethereum-magicians.org".to_owned();
    if host.eq(&localhost) || host.eq(&magicians) {
        Some("magicians".to_owned())
    } else {
        None
    }
}

} // verus!
