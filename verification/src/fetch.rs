//! The remote fetch client's URL arithmetic: where one listing page or one
//! topic page of a discourse instance lives.

use vstd::prelude::*;

use crate::numfmt::spec_i64_string;
use crate::numfmt::spec_u64_string;
use crate::numfmt::i64_to_string;
use crate::numfmt::u64_to_string;

verus! {

/// The URL of one page of one topic's JSON.
pub open spec fn spec_topic_page_url(base: Seq<char>, topic_id: int, page: int) -> Seq<char> {
    base + "/t/"@ + spec_i64_string(topic_id) + ".json?page="@ + spec_u64_string(page as nat)
}

/// Builds the URL under which a topic serves one page of its posts.
pub fn topic_page_url(base: &String, topic_id: i32, page: u32) -> (url: String)
    ensures
        url@ == spec_topic_page_url(base@, topic_id as int, page as int),
{
    let mut url = base.clone();
    url.append("/t/");
    let id = i64_to_string(topic_id as i64);
    url.append(id.as_str());
    url.append(".json?page=");
    let p = u64_to_string(page as u64);
    url.append(p.as_str());
    url
}

/// Whether the listing continuation starts with the given ASCII prefix.
fn has_prefix(s: &str, prefix: &str) -> (r: bool)
    ensures
        r == (s@.len() >= prefix@.len() && s@.subrange(0, prefix@.len() as int) == prefix@),
{
    let n = prefix.unicode_len();
    if s.unicode_len() < n {
        return false;
    }
    let mut i: usize = 0;
    while i < n
        invariant
            i <= n,
            n == prefix@.len(),
            s@.len() >= n,
            forall|j: int| 0 <= j < i ==> s@[j] == prefix@[j],
        decreases n - i,
    {
        if s.get_char(i) != prefix.get_char(i) {
            proof {
                assert(s@.subrange(0, n as int)[i as int] != prefix@[i as int]);
            }
            return false;
        }
        i += 1;
    }
    proof {
        assert(s@.subrange(0, n as int) =~= prefix@);
    }
    true
}

/// The URL of the next listing page, as the continuation reported by the
/// previous page directs: a `/latest?` continuation carries its paging
/// query over to the JSON listing, a bare `/latest` one starts it afresh,
/// any other continuation is followed as given, and no continuation means
/// the first listing page.
pub open spec fn spec_listing_url(base: Seq<char>, more: Option<Seq<char>>) -> Seq<char> {
    match more {
        None => base + "/latest.json"@,
        Some(m) => {
            if m.len() >= "/latest?"@.len() && m.subrange(0, "/latest?"@.len() as int)
                == "/latest?"@ {
                base + "/latest.json?"@ + m.subrange("/latest?"@.len() as int, m.len() as int)
            } else if m.len() >= "/latest"@.len() && m.subrange(0, "/latest"@.len() as int)
                == "/latest"@ {
                base + "/latest.json"@
            } else {
                base + m
            }
        },
    }
}

/// Builds the URL of the next listing page to fetch.
pub fn listing_url(base: &String, more_topics_url: Option<&String>) -> (url: String)
    ensures
        url@ == spec_listing_url(
            base@,
            match more_topics_url {
                Some(m) => Some(m@),
                None => None,
            },
        ),
{
    proof {
        reveal_strlit("/latest?");
        reveal_strlit("/latest");
    }
    let mut url = base.clone();
    match more_topics_url {
        None => {
            url.append("/latest.json");
        },
        Some(more) => {
            if has_prefix(more.as_str(), "/latest?") {
                url.append("/latest.json?");
                let query = more.as_str().substring_char(8, more.as_str().unicode_len());
                url.append(query);
            } else if has_prefix(more.as_str(), "/latest") {
                url.append("/latest.json");
            } else {
                url.append(more.as_str());
            }
        },
    }
    url
}

} // verus!
