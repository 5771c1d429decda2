//! The administrative reindex and statistics: rebuilding the whole search
//! index from stored rows, and the aggregate numbers reported about it.

use vstd::prelude::*;

use crate::numfmt::i64_to_string;
use crate::numfmt::spec_i64_string;
use crate::search::post_document;
use crate::search::spec_post_doc_matches;
use crate::search::spec_topic_doc_matches;
use crate::search::topic_document;
use crate::search::ForumSearchDocument;
use crate::search::PostRecord;
use crate::search::TopicRecord;

verus! {

/// The outcome reported by a full reindex.
#[derive(Clone, Debug)]
pub struct ReindexResponse {
    pub success: bool,
    pub message: String,
    pub topics_processed: i32,
    pub posts_processed: i32,
    pub errors: i32,
}

/// Index statistics: row counts from the store, document count from the
/// search collaborator when it answered.
#[derive(Clone, Copy, Debug, PartialEq, Eq, Structural)]
pub struct AdminStatsResponse {
    pub database_topics: i64,
    pub database_posts: i64,
    pub meilisearch_documents: Option<i64>,
}

/// One user's accumulated token usage.
#[derive(Clone, Debug)]
pub struct UserUsageOverview {
    pub user_id: String,
    pub total_tokens: i64,
    pub prompt_tokens: i64,
    pub completion_tokens: i64,
    pub reasoning_tokens: i64,
}

/// Usage totals over all users, with the per-user rows they come from.
#[derive(Debug)]
pub struct AdminUsageResponse {
    pub total_users: i32,
    pub total_tokens: i64,
    pub total_prompt_tokens: i64,
    pub total_completion_tokens: i64,
    pub total_reasoning_tokens: i64,
    pub users: Vec<UserUsageOverview>,
}

/// The author-name mapping harvested from stored posts, used to label
/// reindexed posts without asking the remote API.  A later post's name for
/// the same user wins, as with repeated map insertion.
pub struct UserMapping {
    entries: Vec<(i32, String)>,
}

/// The map that a sequence of entries denotes, later entries overriding
/// earlier ones.
pub open spec fn spec_entries_map(entries: Seq<(i32, String)>) -> Map<int, Seq<char>>
    decreases entries.len(),
{
    if entries.len() == 0 {
        Map::empty()
    } else {
        spec_entries_map(entries.drop_last()).insert(
            entries.last().0 as int,
            entries.last().1@,
        )
    }
}

/// The mapping that a sequence of posts yields: each post that carries an
/// author name maps its user id to it, later posts overriding earlier
/// ones.
pub open spec fn spec_user_map(posts: Seq<PostRecord>) -> Map<int, Seq<char>>
    decreases posts.len(),
{
    if posts.len() == 0 {
        Map::empty()
    } else {
        let m = spec_user_map(posts.drop_last());
        match posts.last().extra_username {
            Some(u) => m.insert(posts.last().user_id as int, u@),
            None => m,
        }
    }
}

/// An entry suffix without the key leaves the denoted map unchanged at that
/// key.
proof fn lemma_entries_map_suffix_free(entries: Seq<(i32, String)>, j: int, k: int)
    requires
        0 <= j <= entries.len(),
        forall|m: int| j <= m < entries.len() ==> (#[trigger] entries[m]).0 != k,
    ensures
        spec_entries_map(entries).dom().contains(k) == spec_entries_map(
            entries.subrange(0, j),
        ).dom().contains(k),
        spec_entries_map(entries).dom().contains(k) ==> spec_entries_map(entries)[k]
            == spec_entries_map(entries.subrange(0, j))[k],
    decreases entries.len() - j,
{
    if j == entries.len() {
        assert(entries.subrange(0, j) =~= entries);
    } else {
        let shorter = entries.drop_last();
        assert(entries.last() == entries[entries.len() - 1]);
        assert(shorter.subrange(0, j) =~= entries.subrange(0, j));
        lemma_entries_map_suffix_free(shorter, j, k);
    }
}

impl UserMapping {
    /// The map this mapping denotes.
    pub closed spec fn view(&self) -> Map<int, Seq<char>> {
        spec_entries_map(self.entries@)
    }

    /// An empty mapping.
    pub fn new() -> (r: Self)
        ensures
            r@ == Map::<int, Seq<char>>::empty(),
    {
        UserMapping { entries: Vec::new() }
    }

    /// How many entries were harvested.
    pub fn entry_count(&self) -> (n: usize)
        ensures
            n >= self@.dom().len(),
    {
        proof {
            lemma_entries_map_bounded(self.entries@);
        }
        self.entries.len()
    }

    /// Records a user's name, overriding any earlier name for the same
    /// user.
    fn insert(&mut self, user_id: i32, username: String)
        ensures
            final(self)@ == old(self)@.insert(user_id as int, username@),
    {
        self.entries.push((user_id, username));
        proof {
            assert(self.entries@.drop_last() =~= old(self).entries@);
        }
    }

    /// Looks a user's name up.
    pub fn get(&self, user_id: i32) -> (r: Option<&String>)
        ensures
            match r {
                Some(u) => self@.dom().contains(user_id as int) && u@ == self@[user_id as int],
                None => !self@.dom().contains(user_id as int),
            },
    {
        let mut j: usize = self.entries.len();
        while j > 0
            invariant
                j <= self.entries@.len(),
                forall|m: int|
                    j <= m < self.entries@.len() ==> (#[trigger] self.entries@[m]).0 != user_id,
            decreases j,
        {
            j -= 1;
            if self.entries[j].0 == user_id {
                proof {
                    lemma_entries_map_suffix_free(self.entries@, j as int + 1, user_id as int);
                    let prefix = self.entries@.subrange(0, j as int + 1);
                    assert(prefix.drop_last() =~= self.entries@.subrange(0, j as int));
                    assert(prefix.last() == self.entries@[j as int]);
                }
                return Some(&self.entries[j].1);
            }
        }
        proof {
            lemma_entries_map_suffix_free(self.entries@, 0, user_id as int);
            assert(self.entries@.subrange(0, 0) =~= Seq::<(i32, String)>::empty());
        }
        None
    }
}

/// The denoted map has no more keys than entries.
proof fn lemma_entries_map_bounded(entries: Seq<(i32, String)>)
    ensures
        spec_entries_map(entries).dom().finite(),
        spec_entries_map(entries).dom().len() <= entries.len(),
    decreases entries.len(),
{
    if entries.len() > 0 {
        lemma_entries_map_bounded(entries.drop_last());
        let m = spec_entries_map(entries.drop_last());
        let k = entries.last().0 as int;
        if m.dom().contains(k) {
            assert(m.insert(k, entries.last().1@).dom() =~= m.dom());
        } else {
            assert(m.insert(k, entries.last().1@).dom() =~= m.dom().insert(k));
        }
    }
}

/// Harvests the author-name mapping from stored posts: every post carrying
/// a name contributes it under the post's user id, in storage order, so
/// the name seen last wins.
pub fn build_user_mapping_from_posts(posts: &Vec<PostRecord>) -> (m: UserMapping)
    ensures
        m@ == spec_user_map(posts@),
{
    let mut m = UserMapping::new();
    let mut i: usize = 0;
    proof {
        assert(posts@.subrange(0, 0) =~= Seq::<PostRecord>::empty());
    }
    while i < posts.len()
        invariant
            i <= posts@.len(),
            m@ == spec_user_map(posts@.subrange(0, i as int)),
        decreases posts@.len() - i,
    {
        proof {
            let prefix = posts@.subrange(0, i as int + 1);
            assert(prefix.drop_last() =~= posts@.subrange(0, i as int));
            assert(prefix.last() == posts@[i as int]);
        }
        match &posts[i].extra_username {
            Some(u) => {
                let name = u.clone();
                m.insert(posts[i].user_id, name);
            },
            None => (),
        }
        i += 1;
    }
    proof {
        assert(posts@.subrange(0, posts@.len() as int) =~= posts@);
    }
    m
}

/// Projects every stored topic into its search document, in order.
pub fn topic_documents(topics: &Vec<TopicRecord>) -> (docs: Vec<ForumSearchDocument>)
    ensures
        docs@.len() == topics@.len(),
        forall|i: int|
            0 <= i < topics@.len() ==> spec_topic_doc_matches(
                #[trigger] topics@[i],
                docs@[i],
            ),
{
    let mut docs: Vec<ForumSearchDocument> = Vec::new();
    let mut i: usize = 0;
    while i < topics.len()
        invariant
            i <= topics@.len(),
            docs@.len() == i,
            forall|j: int|
                0 <= j < i as int ==> spec_topic_doc_matches(#[trigger] topics@[j], docs@[j]),
        decreases topics@.len() - i,
    {
        docs.push(topic_document(&topics[i]));
        i += 1;
    }
    docs
}

/// The author name a reindexed post is labelled with: what the harvested
/// mapping knows about its user, nothing otherwise.
pub open spec fn spec_mapped_username(m: Map<int, Seq<char>>, user_id: int) -> Option<Seq<char>> {
    if m.dom().contains(user_id) {
        Some(m[user_id])
    } else {
        None
    }
}

/// Projects a batch of stored posts into their search documents, labelling
/// each with the harvested name of its author, when one is known.
pub fn post_documents(posts: &Vec<PostRecord>, mapping: &UserMapping) -> (docs: Vec<
    ForumSearchDocument,
>)
    ensures
        docs@.len() == posts@.len(),
        forall|i: int|
            0 <= i < posts@.len() ==> spec_post_doc_matches(
                #[trigger] posts@[i],
                spec_mapped_username(mapping@, posts@[i].user_id as int),
                docs@[i],
            ),
{
    let mut docs: Vec<ForumSearchDocument> = Vec::new();
    let mut i: usize = 0;
    while i < posts.len()
        invariant
            i <= posts@.len(),
            docs@.len() == i,
            forall|j: int|
                0 <= j < i as int ==> spec_post_doc_matches(
                    #[trigger] posts@[j],
                    spec_mapped_username(mapping@, posts@[j].user_id as int),
                    docs@[j],
                ),
        decreases posts@.len() - i,
    {
        let username: Option<String> = match mapping.get(posts[i].user_id) {
            Some(u) => Some(u.clone()),
            None => None,
        };
        docs.push(post_document(&posts[i], username));
        i += 1;
    }
    docs
}

/// The message a finished reindex reports.
pub open spec fn spec_reindex_message(topics: int, posts: int, errors: int) -> Seq<char> {
    if errors == 0 {
        "Successfully reindexed "@ + spec_i64_string(topics) + " topics and "@ + spec_i64_string(
            posts,
        ) + " posts"@
    } else {
        "Reindexing completed with "@ + spec_i64_string(errors) + " errors. Processed "@
            + spec_i64_string(topics) + " topics and "@ + spec_i64_string(posts) + " posts"@
    }
}

/// Summarizes a finished reindex: it succeeded exactly when nothing went
/// wrong, and the message spells the counts out.
pub fn reindex_summary(topics_processed: i32, posts_processed: i32, errors: i32) -> (r:
    ReindexResponse)
    ensures
        r.success == (errors == 0),
        r.topics_processed == topics_processed,
        r.posts_processed == posts_processed,
        r.errors == errors,
        r.message@ == spec_reindex_message(
            topics_processed as int,
            posts_processed as int,
            errors as int,
        ),
{
    let success = errors == 0;
    let mut message: String;
    if success {
        message = "Successfully reindexed ".to_owned();
    } else {
        message = "Reindexing completed with ".to_owned();
        let e = i64_to_string(errors as i64);
        message.append(e.as_str());
        message.append(" errors. Processed ");
    }
    let t = i64_to_string(topics_processed as i64);
    message.append(t.as_str());
    message.append(" topics and ");
    let p = i64_to_string(posts_processed as i64);
    message.append(p.as_str());
    message.append(" posts");
    ReindexResponse { success, message, topics_processed, posts_processed, errors }
}

/// The sum of one usage field over a set of users.
pub open spec fn spec_sum(
    users: Seq<UserUsageOverview>,
    f: spec_fn(UserUsageOverview) -> int,
) -> int
    decreases users.len(),
{
    if users.len() == 0 {
        0
    } else {
        spec_sum(users.drop_last(), f) + f(users.last())
    }
}

/// Whether a usage row holds no negative counter.
pub open spec fn spec_usage_nonneg(u: UserUsageOverview) -> bool {
    u.total_tokens >= 0 && u.prompt_tokens >= 0 && u.completion_tokens >= 0 && u.reasoning_tokens
        >= 0
}

/// Totals the per-user usage rows.  Counters are non-negative and their
/// sums must fit the counters' own width.
pub fn usage_totals(users: Vec<UserUsageOverview>) -> (r: AdminUsageResponse)
    requires
        users@.len() <= i32::MAX,
        forall|i: int| 0 <= i < users@.len() ==> spec_usage_nonneg(#[trigger] users@[i]),
        spec_sum(users@, |u: UserUsageOverview| u.total_tokens as int) <= i64::MAX,
        spec_sum(users@, |u: UserUsageOverview| u.prompt_tokens as int) <= i64::MAX,
        spec_sum(users@, |u: UserUsageOverview| u.completion_tokens as int) <= i64::MAX,
        spec_sum(users@, |u: UserUsageOverview| u.reasoning_tokens as int) <= i64::MAX,
    ensures
        r.total_users == users@.len(),
        r.total_tokens == spec_sum(users@, |u: UserUsageOverview| u.total_tokens as int),
        r.total_prompt_tokens == spec_sum(users@, |u: UserUsageOverview| u.prompt_tokens as int),
        r.total_completion_tokens == spec_sum(
            users@,
            |u: UserUsageOverview| u.completion_tokens as int,
        ),
        r.total_reasoning_tokens == spec_sum(
            users@,
            |u: UserUsageOverview| u.reasoning_tokens as int,
        ),
        r.users@ == users@,
{
    let ghost f_total = |u: UserUsageOverview| u.total_tokens as int;
    let ghost f_prompt = |u: UserUsageOverview| u.prompt_tokens as int;
    let ghost f_completion = |u: UserUsageOverview| u.completion_tokens as int;
    let ghost f_reasoning = |u: UserUsageOverview| u.reasoning_tokens as int;
    let mut total_tokens: i64 = 0;
    let mut total_prompt_tokens: i64 = 0;
    let mut total_completion_tokens: i64 = 0;
    let mut total_reasoning_tokens: i64 = 0;
    let mut i: usize = 0;
    proof {
        assert(users@.subrange(0, 0) =~= Seq::<UserUsageOverview>::empty());
    }
    while i < users.len()
        invariant
            i <= users@.len(),
            forall|j: int| 0 <= j < users@.len() ==> spec_usage_nonneg(#[trigger] users@[j]),
            spec_sum(users@, f_total) <= i64::MAX,
            spec_sum(users@, f_prompt) <= i64::MAX,
            spec_sum(users@, f_completion) <= i64::MAX,
            spec_sum(users@, f_reasoning) <= i64::MAX,
            f_total == |u: UserUsageOverview| u.total_tokens as int,
            f_prompt == |u: UserUsageOverview| u.prompt_tokens as int,
            f_completion == |u: UserUsageOverview| u.completion_tokens as int,
            f_reasoning == |u: UserUsageOverview| u.reasoning_tokens as int,
            total_tokens == spec_sum(users@.subrange(0, i as int), f_total),
            total_prompt_tokens == spec_sum(users@.subrange(0, i as int), f_prompt),
            total_completion_tokens == spec_sum(users@.subrange(0, i as int), f_completion),
            total_reasoning_tokens == spec_sum(users@.subrange(0, i as int), f_reasoning),
        decreases users@.len() - i,
    {
        proof {
            let prefix = users@.subrange(0, i as int + 1);
            assert(prefix.drop_last() =~= users@.subrange(0, i as int));
            assert(prefix.last() == users@[i as int]);
            lemma_sum_prefix_bound(users@, i as int + 1, f_total);
            lemma_sum_prefix_bound(users@, i as int + 1, f_prompt);
            lemma_sum_prefix_bound(users@, i as int + 1, f_completion);
            lemma_sum_prefix_bound(users@, i as int + 1, f_reasoning);
        }
        total_tokens = total_tokens + users[i].total_tokens;
        total_prompt_tokens = total_prompt_tokens + users[i].prompt_tokens;
        total_completion_tokens = total_completion_tokens + users[i].completion_tokens;
        total_reasoning_tokens = total_reasoning_tokens + users[i].reasoning_tokens;
        i += 1;
    }
    proof {
        assert(users@.subrange(0, users@.len() as int) =~= users@);
    }
    let total_users = users.len() as i32;
    AdminUsageResponse {
        total_users,
        total_tokens,
        total_prompt_tokens,
        total_completion_tokens,
        total_reasoning_tokens,
        users,
    }
}

/// With non-negative summands, every prefix sum is bounded by the whole
/// sum.
proof fn lemma_sum_prefix_bound(
    users: Seq<UserUsageOverview>,
    j: int,
    f: spec_fn(UserUsageOverview) -> int,
)
    requires
        0 <= j <= users.len(),
        forall|i: int| 0 <= i < users.len() ==> f(#[trigger] users[i]) >= 0,
    ensures
        spec_sum(users.subrange(0, j), f) >= 0,
        spec_sum(users.subrange(0, j), f) <= spec_sum(users, f),
    decreases users.len(),
{
    lemma_sum_nonneg(users.subrange(0, j), f);
    if j == users.len() {
        assert(users.subrange(0, j) =~= users);
    } else {
        let shorter = users.drop_last();
        assert(shorter.subrange(0, j) =~= users.subrange(0, j));
        lemma_sum_prefix_bound(shorter, j, f);
        assert(users.last() == users[users.len() - 1]);
    }
}

/// A sum of non-negative summands is non-negative.
proof fn lemma_sum_nonneg(users: Seq<UserUsageOverview>, f: spec_fn(UserUsageOverview) -> int)
    requires
        forall|i: int| 0 <= i < users.len() ==> f(#[trigger] users[i]) >= 0,
    ensures
        spec_sum(users, f) >= 0,
    decreases users.len(),
{
    if users.len() > 0 {
        lemma_sum_nonneg(users.drop_last(), f);
        assert(users.last() == users[users.len() - 1]);
    }
}

} // verus!
