//! Work deduplication: a FIFO of pending requests paired with the set of
//! outstanding keys, guaranteeing at most one in-flight request per key.

use vstd::prelude::*;

verus! {

/// The unit of in-flight-work deduplication: one page of one subject,
/// scoped to a single source instance.
#[derive(Clone, Copy, Debug, PartialEq, Eq, Structural, Hash)]
pub struct WorkKey {
    pub subject_id: i64,
    pub page: u32,
}

/// Per-instance queue pairing an unbounded FIFO of pending work with the set
/// of keys that are outstanding, that is enqueued or currently being
/// processed.  A key becomes outstanding when `enqueue` accepts it and stops
/// being outstanding only when `release` is called after its request has been
/// fully processed; while it is outstanding, further `enqueue` calls for the
/// same key are coalesced into no-ops.
pub struct DedupQueue {
    pending: Vec<WorkKey>,
    outstanding: Vec<WorkKey>,
}

impl DedupQueue {
    /// The FIFO of requests that have been enqueued and not yet dequeued,
    /// oldest first.
    pub closed spec fn pending(&self) -> Seq<WorkKey> {
        self.pending@
    }

    /// The keys that are enqueued or currently being processed.
    pub closed spec fn outstanding(&self) -> Seq<WorkKey> {
        self.outstanding@
    }

    /// Whether `k` is currently outstanding.
    pub open spec fn is_outstanding(&self, k: WorkKey) -> bool {
        self.outstanding().contains(k)
    }

    /// The queue's invariant: no key is outstanding twice, no request is
    /// pending twice, and every pending request's key is outstanding.
    pub open spec fn wf(&self) -> bool {
        &&& self.outstanding().no_duplicates()
        &&& self.pending().no_duplicates()
        &&& forall|i: int|
            0 <= i < self.pending().len() ==> self.outstanding().contains(
                #[trigger] self.pending()[i],
            )
    }

    /// An empty queue with nothing pending and nothing outstanding.
    pub fn new() -> (q: Self)
        ensures
            q.wf(),
            q.pending() == Seq::<WorkKey>::empty(),
            q.outstanding() == Seq::<WorkKey>::empty(),
    {
        DedupQueue { pending: Vec::new(), outstanding: Vec::new() }
    }

    /// Inserts `k` into the outstanding set and, only if it was not already
    /// present, appends the corresponding request to the FIFO and returns
    /// `true`; if `k` is already outstanding the call is a no-op returning
    /// `false`.
    pub fn enqueue(&mut self, k: WorkKey) -> (fresh: bool)
        requires
            old(self).wf(),
        ensures
            final(self).wf(),
            fresh == !old(self).is_outstanding(k),
            fresh ==> final(self).pending() == old(self).pending().push(k),
            fresh ==> final(self).outstanding() == old(self).outstanding().push(k),
            !fresh ==> *final(self) == *old(self),
    {
        if self.contains_outstanding(&k) {
            false
        } else {
            self.outstanding.push(k);
            self.pending.push(k);
            assert(final(self).wf()) by {
                let po = old(self).pending();
                let oo = old(self).outstanding();
                assert forall|i: int| 0 <= i < po.push(k).len() implies oo.push(k).contains(
                    #[trigger] po.push(k)[i],
                ) by {
                    if i < po.len() {
                        assert(oo.contains(po[i]));
                        let j = choose|j: int| 0 <= j < oo.len() && oo[j] == po[i];
                        assert(oo.push(k)[j] == po[i]);
                    } else {
                        assert(oo.push(k).last() == k);
                    }
                }
            }
            true
        }
    }

    /// Removes and returns the oldest pending request, or `None` if the FIFO
    /// is empty.  The request's key stays outstanding: it is removed only by
    /// `release`, after processing for the request has finished.
    pub fn dequeue(&mut self) -> (r: Option<WorkKey>)
        requires
            old(self).wf(),
        ensures
            final(self).wf(),
            final(self).outstanding() == old(self).outstanding(),
            old(self).pending().len() == 0 ==> r is None && *final(self) == *old(self),
            old(self).pending().len() > 0 ==> {
                &&& r == Some(old(self).pending()[0])
                &&& final(self).pending() == old(self).pending().drop_first()
            },
            r is Some ==> final(self).is_outstanding(r->Some_0),
            r is Some ==> !final(self).pending().contains(r->Some_0),
    {
        if self.pending.len() == 0 {
            None
        } else {
            let k = self.pending.remove(0);
            assert(final(self).pending() =~= old(self).pending().drop_first());
            assert(old(self).outstanding().contains(old(self).pending()[0]));
            assert(!final(self).pending().contains(k)) by {
                let pn = final(self).pending();
                if pn.contains(k) {
                    let i = choose|i: int| 0 <= i < pn.len() && pn[i] == k;
                    assert(old(self).pending()[i + 1] == old(self).pending()[0]);
                }
            }
            Some(k)
        }
    }

    /// Removes `k` from the outstanding set, permitting a future `enqueue`
    /// of the same key to produce a new request.  Called exactly once per
    /// dequeued request, after its processing has finished; the key must not
    /// still be sitting in the FIFO.
    pub fn release(&mut self, k: WorkKey)
        requires
            old(self).wf(),
            !old(self).pending().contains(k),
        ensures
            final(self).wf(),
            final(self).pending() == old(self).pending(),
            final(self).outstanding() == old(self).outstanding().remove_value(k),
            !final(self).is_outstanding(k),
            forall|k2: WorkKey|
                k2 != k ==> final(self).is_outstanding(k2) == old(self).is_outstanding(k2),
    {
        let ghost oo = old(self).outstanding();
        let mut i: usize = 0;
        while i < self.outstanding.len()
            invariant
                *self == *old(self),
                oo == old(self).outstanding(),
                !old(self).pending().contains(k),
                old(self).wf(),
                i <= self.outstanding.len(),
                forall|j: int| 0 <= j < i ==> self.outstanding()[j] != k,
            decreases self.outstanding.len() - i,
        {
            if self.outstanding[i] == k {
                self.outstanding.remove(i);
                proof {
                    assert(oo[i as int] == k);
                    assert(oo.contains(k));
                    oo.index_of_first_ensures(k);
                    let fi = oo.index_of_first(k)->Some_0;
                    assert(oo[fi] == k);
                    assert(forall|j: int| 0 <= j < fi ==> oo[j] != k);
                    assert(fi == i as int);
                    assert(final(self).outstanding() == oo.remove_value(k));
                    lemma_remove_keeps_no_duplicates(oo, i as int);
                    assert forall|j: int|
                        0 <= j < final(self).pending().len() implies final(self).outstanding()
                        .contains(#[trigger] final(self).pending()[j]) by {
                        let p = old(self).pending()[j];
                        let m = choose|m: int| 0 <= m < oo.len() && oo[m] == p;
                        assert(p != k);
                        if m < i {
                            assert(oo.remove(i as int)[m] == p);
                        } else {
                            assert(oo.remove(i as int)[m - 1] == p);
                        }
                    }
                    assert(!final(self).is_outstanding(k)) by {
                        let on = final(self).outstanding();
                        if on.contains(k) {
                            let j = choose|j: int| 0 <= j < on.len() && on[j] == k;
                            if j < i {
                                assert(oo[j] == k);
                            } else {
                                assert(oo[j + 1] == k);
                            }
                        }
                    }
                    assert forall|k2: WorkKey| k2 != k implies final(self).is_outstanding(k2)
                        == old(self).is_outstanding(k2) by {
                        lemma_remove_other_contains(oo, i as int, k2);
                    }
                }
                return ;
            }
            i += 1;
        }
        proof {
            assert(!oo.contains(k));
            oo.index_of_first_ensures(k);
            assert(oo.remove_value(k) == oo);
        }
    }

    /// Whether `k` is in the outstanding set.
    fn contains_outstanding(&self, k: &WorkKey) -> (r: bool)
        ensures
            r == self.is_outstanding(*k),
    {
        let mut i: usize = 0;
        while i < self.outstanding.len()
            invariant
                i <= self.outstanding.len(),
                forall|j: int| 0 <= j < i ==> self.outstanding()[j] != *k,
            decreases self.outstanding.len() - i,
        {
            if self.outstanding[i] == *k {
                return true;
            }
            i += 1;
        }
        false
    }

    /// How many requests are waiting in the FIFO.
    pub fn pending_len(&self) -> (n: usize)
        ensures
            n == self.pending().len(),
    {
        self.pending.len()
    }
}

/// Removing an element from a duplicate-free sequence keeps it
/// duplicate-free.
proof fn lemma_remove_keeps_no_duplicates<A>(s: Seq<A>, i: int)
    requires
        s.no_duplicates(),
        0 <= i < s.len(),
    ensures
        s.remove(i).no_duplicates(),
{
    let r = s.remove(i);
    assert forall|m: int, n: int|
        0 <= m < r.len() && 0 <= n < r.len() && m != n implies r[m] != r[n] by {
        let m0 = if m < i { m } else { m + 1 };
        let n0 = if n < i { n } else { n + 1 };
        assert(r[m] == s[m0] && r[n] == s[n0]);
    }
}

/// Removing one element changes membership for no other value.
proof fn lemma_remove_other_contains<A>(s: Seq<A>, i: int, v: A)
    requires
        0 <= i < s.len(),
        v != s[i],
    ensures
        s.remove(i).contains(v) == s.contains(v),
{
    let r = s.remove(i);
    if s.contains(v) {
        let j = choose|j: int| 0 <= j < s.len() && s[j] == v;
        if j < i {
            assert(r[j] == v);
        } else {
            assert(r[j - 1] == v);
        }
    }
    if r.contains(v) {
        let j = choose|j: int| 0 <= j < r.len() && r[j] == v;
        if j < i {
            assert(s[j] == v);
        } else {
            assert(s[j + 1] == v);
        }
    }
}

/// What one `enqueue` call does to the queue's two views: nothing when the
/// key is already outstanding, otherwise the key joins both.
pub open spec fn spec_enqueue_model(
    pending: Seq<WorkKey>,
    outstanding: Seq<WorkKey>,
    k: WorkKey,
) -> (Seq<WorkKey>, Seq<WorkKey>) {
    if outstanding.contains(k) {
        (pending, outstanding)
    } else {
        (pending.push(k), outstanding.push(k))
    }
}

/// Work dedup law: in any well-formed queue the FIFO never holds two
/// requests for the same key, so however many concurrent `enqueue` calls
/// raced for a key while it was outstanding, at most one request for it is
/// waiting to be processed.
pub proof fn lemma_at_most_one_pending(q: DedupQueue, k: WorkKey)
    requires
        q.wf(),
    ensures
        forall|i: int, j: int|
            0 <= i < q.pending().len() && 0 <= j < q.pending().len() && q.pending()[i] == k
                && q.pending()[j] == k ==> i == j,
{
}

} // verus!
