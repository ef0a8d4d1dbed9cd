//! The registry of live peers.
//!
//! The acceptor owns one `PeerRegistry`: a mapping from peer address to that
//! peer's `IoGate` (keys unique, iteration order irrelevant), together with
//! the deferred-deletion queue that dropped streams push their address onto.
//! `sweep` drains the queue and removes the corresponding entries; it is the
//! only operation that removes entries.

use vstd::prelude::*;

use crate::addr::PeerAddr;
use crate::gate::IoGate;

verus! {

/// One registry entry: a peer address and an `IoGate` shared with that peer's
/// stream.
#[derive(Clone, Copy)]
pub struct Entry {
    pub addr: PeerAddr,
    pub gate: IoGate,
}

/// The addresses of a sequence of entries are pairwise distinct.
pub open spec fn entry_addrs_unique(s: Seq<Entry>) -> bool {
    forall|i: int, j: int| 0 <= i < j < s.len() ==> s[i].addr != s[j].addr
}

/// Some entry of `s` carries address `a`.
pub open spec fn has_addr(s: Seq<Entry>, a: PeerAddr) -> bool {
    exists|i: int| 0 <= i < s.len() && s[i].addr == a
}

/// Registry of live peers plus the deferred-deletion queue.
pub struct PeerRegistry {
    entries: Vec<Entry>,
    deletion_queue: Vec<PeerAddr>,
}

impl View for PeerRegistry {
    type V = Seq<Entry>;

    closed spec fn view(&self) -> Seq<Entry> {
        self.entries@
    }
}

impl PeerRegistry {
    /// The addresses currently queued for deletion.
    pub closed spec fn queued(self) -> Seq<PeerAddr> {
        self.deletion_queue@
    }

    /// Well-formed: every peer address has at most one entry.
    pub open spec fn wf(self) -> bool {
        entry_addrs_unique(self@)
    }

    /// An empty registry with an empty deletion queue.
    pub fn new() -> (r: PeerRegistry)
        ensures
            r@ =~= Seq::<Entry>::empty(),
            r.queued() =~= Seq::<PeerAddr>::empty(),
            r.wf(),
    {
        PeerRegistry { entries: Vec::new(), deletion_queue: Vec::new() }
    }

    /// Number of entries.
    pub fn len(&self) -> (r: usize)
        ensures
            r == self@.len(),
    {
        self.entries.len()
    }

    /// Index of the entry for `a`, or `None` when `a` is unknown.
    pub fn find(&self, a: PeerAddr) -> (r: Option<usize>)
        ensures
            match r {
                Some(i) => i < self@.len() && self@[i as int].addr == a,
                None => !has_addr(self@, a),
            },
    {
        let n = self.entries.len();
        let mut i: usize = 0;
        while i < n
            invariant
                n == self@.len(),
                i <= n,
                forall|j: int| 0 <= j < i ==> self@[j].addr != a,
            decreases n - i,
        {
            if self.entries[i].addr == a {
                return Some(i);
            }
            i += 1;
        }
        None
    }

    /// Insert a new entry for a previously unknown peer.
    pub fn insert(&mut self, a: PeerAddr, gate: IoGate)
        requires
            old(self).wf(),
            !has_addr(old(self)@, a),
        ensures
            final(self)@ =~= old(self)@.push(Entry { addr: a, gate }),
            final(self).queued() == old(self).queued(),
            final(self).wf(),
    {
        self.entries.push(Entry { addr: a, gate });
    }

    /// Raise `data_available` on entry `i`'s gate.
    pub fn signal_available(&mut self, i: usize)
        requires
            i < old(self)@.len(),
        ensures
            final(self)@.len() == old(self)@.len(),
            final(self)@[i as int].addr == old(self)@[i as int].addr,
            final(self)@[i as int].gate.available(),
            final(self)@[i as int].gate.consumed() == old(self)@[i as int].gate.consumed(),
            forall|j: int| 0 <= j < old(self)@.len() && j != i ==> final(self)@[j] == old(self)@[j],
            final(self).queued() == old(self).queued(),
    {
        let mut e = self.entries[i];
        e.gate.signal_available();
        self.entries.set(i, e);
    }

    /// Raise `data_consumed` on entry `i`'s gate.
    pub fn signal_consumed(&mut self, i: usize)
        requires
            i < old(self)@.len(),
        ensures
            final(self)@.len() == old(self)@.len(),
            final(self)@[i as int].addr == old(self)@[i as int].addr,
            final(self)@[i as int].gate.consumed(),
            final(self)@[i as int].gate.available() == old(self)@[i as int].gate.available(),
            forall|j: int| 0 <= j < old(self)@.len() && j != i ==> final(self)@[j] == old(self)@[j],
            final(self).queued() == old(self).queued(),
    {
        let mut e = self.entries[i];
        e.gate.signal_consumed();
        self.entries.set(i, e);
    }

    /// Poll `data_available` on entry `i`'s gate, clearing the latch.
    pub fn poll_available(&mut self, i: usize) -> (r: bool)
        requires
            i < old(self)@.len(),
        ensures
            r == old(self)@[i as int].gate.available(),
            final(self)@.len() == old(self)@.len(),
            final(self)@[i as int].addr == old(self)@[i as int].addr,
            !final(self)@[i as int].gate.available(),
            final(self)@[i as int].gate.consumed() == old(self)@[i as int].gate.consumed(),
            forall|j: int| 0 <= j < old(self)@.len() && j != i ==> final(self)@[j] == old(self)@[j],
            final(self).queued() == old(self).queued(),
    {
        let mut e = self.entries[i];
        let r = e.gate.poll_available();
        self.entries.set(i, e);
        r
    }

    /// Poll `data_consumed` on entry `i`'s gate, clearing the latch.
    pub fn poll_consumed(&mut self, i: usize) -> (r: bool)
        requires
            i < old(self)@.len(),
        ensures
            r == old(self)@[i as int].gate.consumed(),
            final(self)@.len() == old(self)@.len(),
            final(self)@[i as int].addr == old(self)@[i as int].addr,
            !final(self)@[i as int].gate.consumed(),
            final(self)@[i as int].gate.available() == old(self)@[i as int].gate.available(),
            forall|j: int| 0 <= j < old(self)@.len() && j != i ==> final(self)@[j] == old(self)@[j],
            final(self).queued() == old(self).queued(),
    {
        let mut e = self.entries[i];
        let r = e.gate.poll_consumed();
        self.entries.set(i, e);
        r
    }

    /// A dropped stream queues its address for deferred deletion. Queueing
    /// never fails and never touches the entries themselves; duplicates are
    /// harmless (see `lemma_sweep_ignores_duplicate_deletions`).
    pub fn enqueue_delete(&mut self, a: PeerAddr)
        ensures
            final(self)@ == old(self)@,
            final(self).queued() =~= old(self).queued().push(a),
    {
        self.deletion_queue.push(a);
    }

    /// Drain the deletion queue and remove every entry whose address was
    /// queued. The only operation that removes entries.
    pub fn sweep(&mut self)
        requires
            old(self).wf(),
        ensures
            final(self)@ =~= old(self)@.filter(
                |e: Entry| !old(self).queued().contains(e.addr),
            ),
            final(self).queued() =~= Seq::<PeerAddr>::empty(),
            final(self).wf(),
    {
        let ghost q = self.deletion_queue@;
        let ghost pred = |e: Entry| !q.contains(e.addr);
        let n = self.entries.len();
        let mut kept: Vec<Entry> = Vec::new();
        let mut i: usize = 0;
        while i < n
            invariant
                n == self.entries@.len(),
                i <= n,
                q == self.deletion_queue@,
                pred == (|e: Entry| !q.contains(e.addr)),
                kept@ =~= self.entries@.take(i as int).filter(pred),
            decreases n - i,
        {
            let e = self.entries[i];
            proof {
                lemma_filter_push(self.entries@.take(i as int), e, pred);
                assert(self.entries@.take(i + 1 as int) =~= self.entries@.take(i as int).push(e));
            }
            if !addr_list_contains(&self.deletion_queue, e.addr) {
                kept.push(e);
            }
            i += 1;
        }
        proof {
            assert(self.entries@.take(n as int) =~= self.entries@);
            lemma_filter_keeps_unique(self.entries@, pred);
        }
        self.entries = kept;
        self.deletion_queue = Vec::new();
    }
}

/// Linear search of a plain address list.
fn addr_list_contains(v: &Vec<PeerAddr>, a: PeerAddr) -> (r: bool)
    ensures
        r == v@.contains(a),
{
    let n = v.len();
    let mut i: usize = 0;
    while i < n
        invariant
            n == v@.len(),
            i <= n,
            forall|j: int| 0 <= j < i ==> v@[j] != a,
        decreases n - i,
    {
        if v[i] == a {
            return true;
        }
        i += 1;
    }
    false
}

/// A second queueing of the same address — the moral equivalent of a second
/// drop of the same stream — never changes what the next sweep removes: the
/// sweep's outcome depends only on which addresses are queued, never on how
/// often one was queued. In particular no entry is left dangling and none is
/// removed twice.
pub proof fn lemma_sweep_ignores_duplicate_deletions(
    entries: Seq<Entry>,
    q1: Seq<PeerAddr>,
    q2: Seq<PeerAddr>,
)
    requires
        forall|a: PeerAddr| q1.contains(a) == q2.contains(a),
    ensures
        entries.filter(|e: Entry| !q1.contains(e.addr)) == entries.filter(
            |e: Entry| !q2.contains(e.addr),
        ),
{
    let keep_a = |e: Entry| !q1.contains(e.addr);
    let keep_b = |e: Entry| !q2.contains(e.addr);
    assert forall|e: Entry| #[trigger] keep_a(e) == keep_b(e) by {
        assert(q1.contains(e.addr) == q2.contains(e.addr));
    }
    assert(keep_a =~= keep_b);
}

/// Filtering a sequence extended by one element keeps the already-filtered
/// prefix and appends the new element exactly when it satisfies the
/// predicate.
pub proof fn lemma_filter_push(s: Seq<Entry>, x: Entry, pred: spec_fn(Entry) -> bool)
    ensures
        s.push(x).filter(pred) == (if pred(x) {
            s.filter(pred).push(x)
        } else {
            s.filter(pred)
        }),
{
    reveal(Seq::filter);
    assert(s.push(x).drop_last() =~= s);
    assert(s.push(x).last() == x);
}

/// Filtering keeps entry addresses pairwise distinct, and every surviving
/// entry was already present.
pub proof fn lemma_filter_keeps_unique(s: Seq<Entry>, pred: spec_fn(Entry) -> bool)
    requires
        entry_addrs_unique(s),
    ensures
        entry_addrs_unique(s.filter(pred)),
        forall|j: int| 0 <= j < s.filter(pred).len() ==> s.contains(#[trigger] s.filter(pred)[j]),
    decreases s.len(),
{
    reveal(Seq::filter);
    if s.len() == 0 {
    } else {
        let t = s.drop_last();
        assert(entry_addrs_unique(t));
        lemma_filter_keeps_unique(t, pred);
        assert forall|j: int| 0 <= j < s.filter(pred).len() implies s.contains(
            #[trigger] s.filter(pred)[j],
        ) by {
            if j < t.filter(pred).len() {
                let e = t.filter(pred)[j];
                let k = choose|k: int| 0 <= k < t.len() && t[k] == e;
                assert(s[k] == e);
            } else {
                assert(s.filter(pred)[j] == s.last());
                assert(s.contains(s.last())) by {
                    assert(s[s.len() - 1] == s.last());
                }
            }
        }
        assert forall|i: int, j: int|
            0 <= i < j < s.filter(pred).len() implies s.filter(pred)[i].addr != s.filter(
            pred,
        )[j].addr by {
            if j < t.filter(pred).len() {
            } else {
                let e = t.filter(pred)[i];
                let k = choose|k: int| 0 <= k < t.len() && t[k] == e;
                assert(s[k] == e);
                assert(s.filter(pred)[j] == s.last());
                assert(s[s.len() - 1] == s.last());
            }
        }
    }
}

} // verus!
