//! The staleness decision: whether a freshly fetched summary of a remote
//! object justifies fetching the object's content in depth.

use vstd::prelude::*;

verus! {

/// Ephemeral summary derived from a fetched page of a remote object.  Never
/// persisted; it exists only to be compared against the stored record.
/// Timestamps are Unix milliseconds.
#[derive(Clone, Copy, Debug)]
pub struct RemoteSummary {
    pub remote_id: i64,
    pub item_count: i64,
    pub last_activity_at: i64,
}

/// The locally stored counterpart of a remote object (a forum topic or a
/// tracker issue), as far as the staleness decision reads it.  A record that
/// has never seen any activity carries no timestamp.
#[derive(Clone, Debug)]
pub struct LocalRecord {
    pub remote_id: i64,
    pub item_count: i64,
    pub last_activity_at: Option<i64>,
    pub title: String,
    pub slug: String,
}

/// The stored record's activity timestamp, with a missing one ordered
/// before every real one.
pub open spec fn spec_last_activity(l: LocalRecord) -> int {
    match l.last_activity_at {
        Some(t) => t as int,
        None => i64::MIN as int,
    }
}

/// What `needs_refetch` decides: an object with no stored record is always
/// fetched; otherwise it is fetched when the remote summary reports a
/// different item count, newer activity, or more items than are stored
/// locally.  Deliberately permissive: a wasted fetch is cheaper than a
/// silently stale object.
pub open spec fn spec_needs_refetch(
    local: Option<LocalRecord>,
    local_children: u64,
    remote: RemoteSummary,
) -> bool {
    match local {
        None => true,
        Some(l) => {
            ||| l.item_count != remote.item_count
            ||| spec_last_activity(l) < remote.last_activity_at
            ||| (local_children as int) < remote.item_count
        },
    }
}

/// Pure staleness decision comparing the fetched summary against the stored
/// record; `local_children` is how many child items are stored locally for
/// the object (counted separately from the record's own item count).
pub fn needs_refetch(
    local: Option<&LocalRecord>,
    local_children: u64,
    remote: &RemoteSummary,
) -> (r: bool)
    ensures
        r == match local {
            None => true,
            Some(l) => spec_needs_refetch(Some(*l), local_children, *remote),
        },
{
    match local {
        None => true,
        Some(l) => {
            if l.item_count != remote.item_count {
                true
            } else {
                let last: i64 = match l.last_activity_at {
                    Some(t) => t,
                    None => i64::MIN,
                };
                if last < remote.last_activity_at {
                    true
                } else if remote.item_count >= 0 && local_children < remote.item_count as u64 {
                    true
                } else {
                    false
                }
            }
        },
    }
}

/// Staleness skip law: when the stored record reports the same item count,
/// activity at least as recent, and at least as many stored child items as
/// the remote summary, the object is left alone.
pub proof fn lemma_staleness_skip(l: LocalRecord, local_children: u64, remote: RemoteSummary)
    requires
        l.item_count == remote.item_count,
        spec_last_activity(l) >= remote.last_activity_at,
        local_children >= remote.item_count,
    ensures
        !spec_needs_refetch(Some(l), local_children, remote),
{
}

} // verus!
