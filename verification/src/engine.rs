//! The demultiplexer as a whole: acceptor, registry, gates and streams
//! composed, with the delivery guarantees proved.
//!
//! `Demux` runs the full protocol for one datagram at a time, exactly as the
//! asynchronous server does when the acceptor is polled continuously and
//! every consumer reads continuously: sweep, peek (the datagram is handed in
//! as a value), classify, rendezvous with the consumer, receive, acknowledge.
//! Its contracts state the demultiplexer's guarantees: each datagram is
//! delivered to exactly one stream — the one whose peer equals the
//! datagram's source — byte for byte, in arrival order.

use vstd::prelude::*;

use crate::acceptor::{AcceptDecision, Acceptor};
use crate::addr::PeerAddr;
use crate::registry::{has_addr, lemma_filter_keeps_unique, entry_addrs_unique};
use crate::stream::{PeerStream, ReadStep};

verus! {

broadcast use vstd::seq_lib::group_filter_ensures;

/// One UDP message as delivered by the kernel: its source address and its
/// payload.
pub struct Datagram {
    pub src: PeerAddr,
    pub payload: Vec<u8>,
}

/// What one successful read returned: the reading stream's peer address and
/// the bytes it got.
pub struct Delivery {
    pub peer: PeerAddr,
    pub payload: Vec<u8>,
}

/// Some stream in `s` has peer address `a`.
pub open spec fn has_peer(s: Seq<PeerStream>, a: PeerAddr) -> bool {
    exists|i: int| 0 <= i < s.len() && s[i].peer() == a
}

/// The peers of a sequence of streams are pairwise distinct.
pub open spec fn peers_unique(s: Seq<PeerStream>) -> bool {
    forall|i: int, j: int| 0 <= i < j < s.len() ==> s[i].peer() != s[j].peer()
}

/// The whole demultiplexer: the acceptor (owning the registry) and the live
/// per-peer streams.
pub struct Demux {
    pub acceptor: Acceptor,
    pub streams: Vec<PeerStream>,
}

impl Demux {
    /// The protocol invariant, restored between deliveries.
    ///
    /// - the registry maps each peer address to at most one entry;
    /// - each live stream has a registry entry and is not queued for
    ///   deletion; conversely every entry belongs to a live stream or to one
    ///   already queued;
    /// - between rendezvous no `data_available` signal is outstanding, and a
    ///   `data_consumed` signal only on gates of dropped (queued) streams;
    /// - every live stream is ready: subscription in flight, not timed out;
    /// - no pending-ack is outstanding (the previous yield was consumed).
    pub open spec fn wf(self) -> bool {
        &&& self.acceptor.registry.wf()
        &&& peers_unique(self.streams@)
        &&& forall|i: int|
            0 <= i < self.streams@.len() ==> has_addr(
                self.acceptor.registry@,
                #[trigger] self.streams@[i].peer(),
            )
        &&& forall|i: int|
            0 <= i < self.streams@.len() ==> !self.acceptor.registry.queued().contains(
                #[trigger] self.streams@[i].peer(),
            )
        &&& forall|i: int|
            0 <= i < self.streams@.len() ==> (#[trigger] self.streams@[i].pending_wait())
                && !self.streams@[i].timed_out()
        &&& forall|i: int|
            0 <= i < self.acceptor.registry@.len() ==> has_peer(
                self.streams@,
                (#[trigger] self.acceptor.registry@[i]).addr,
            ) || self.acceptor.registry.queued().contains(self.acceptor.registry@[i].addr)
        &&& forall|i: int|
            0 <= i < self.acceptor.registry@.len() ==> !(
            #[trigger] self.acceptor.registry@[i]).gate.available()
        &&& forall|i: int|
            0 <= i < self.acceptor.registry@.len() && (
            #[trigger] self.acceptor.registry@[i]).gate.consumed()
                ==> self.acceptor.registry.queued().contains(self.acceptor.registry@[i].addr)
        &&& self.acceptor.pending_ack is None
    }

    /// A fresh demultiplexer: no peers, no streams.
    pub fn new(idle_timeout_ms: Option<u64>) -> (d: Demux)
        ensures
            d.wf(),
            d.streams@.len() == 0,
            d.acceptor.registry@.len() == 0,
            d.acceptor.idle_timeout_ms == idle_timeout_ms,
    {
        Demux { acceptor: Acceptor::new(idle_timeout_ms), streams: Vec::new() }
    }

    /// Number of live streams.
    pub fn stream_count(&self) -> (r: usize)
        ensures
            r == self.streams@.len(),
    {
        self.streams.len()
    }

    /// The peer address of the live stream at index `i`.
    pub fn stream_peer(&self, i: usize) -> (r: PeerAddr)
        requires
            i < self.streams@.len(),
        ensures
            r == self.streams@[i as int].peer(),
    {
        self.streams[i].peer_addr()
    }

    /// Run one full acceptor iteration for the next datagram in the kernel
    /// queue and the one read it triggers: sweep dead peers, classify the
    /// source, rendezvous through the peer's gate, deliver the payload,
    /// acknowledge consumption.
    ///
    /// The returned delivery goes to exactly one stream — the one whose peer
    /// address equals the datagram's source — and carries the payload byte
    /// for byte. A datagram from an unknown source first mints and registers
    /// that stream.
    pub fn deliver_next(&mut self, dgram: &Datagram) -> (d: Delivery)
        requires
            old(self).wf(),
        ensures
            final(self).wf(),
            d.peer == dgram.src,
            d.payload@ == dgram.payload@,
            has_peer(final(self).streams@, dgram.src),
            has_peer(old(self).streams@, dgram.src) ==> final(self).streams@.len() == old(
                self,
            ).streams@.len(),
            !has_peer(old(self).streams@, dgram.src) ==> final(self).streams@.len() == old(
                self,
            ).streams@.len() + 1 && final(self).streams@.last().peer() == dgram.src,
            forall|i: int|
                0 <= i < old(self).streams@.len() ==> (#[trigger] final(self).streams@[i]).peer()
                    == old(self).streams@[i].peer(),
            final(self).acceptor.idle_timeout_ms == old(self).acceptor.idle_timeout_ms,
    {
        let src = dgram.src;
        let ghost pre = *self;

        // Top of the loop: drain the deletion queue.
        self.acceptor.sweep();
        proof {
            let q = pre.acceptor.registry.queued();
            let entries = pre.acceptor.registry@;
            let pred = |e: crate::registry::Entry| !q.contains(e.addr);
            lemma_filter_keeps_unique(entries, pred);
            // Live streams survive the sweep: their entries were not queued.
            assert forall|i: int| 0 <= i < self.streams@.len() implies has_addr(
                self.acceptor.registry@,
                #[trigger] self.streams@[i].peer(),
            ) by {
                let p = self.streams@[i].peer();
                let k = choose|k: int| 0 <= k < entries.len() && entries[k].addr == p;
                assert(pred(entries[k]));
                assert(entries.filter(pred).contains(entries[k]));
                let m = choose|m: int|
                    0 <= m < entries.filter(pred).len() && entries.filter(pred)[m] == entries[k];
                assert(self.acceptor.registry@[m].addr == p);
            }
            // Surviving entries belong to live streams and their gates are
            // at rest: queued entries — the only ones possibly signalled —
            // are gone.
            assert forall|i: int| 0 <= i < self.acceptor.registry@.len() implies has_peer(
                self.streams@,
                (#[trigger] self.acceptor.registry@[i]).addr,
            ) && !self.acceptor.registry@[i].gate.available()
                && !self.acceptor.registry@[i].gate.consumed() by {
                let e = self.acceptor.registry@[i];
                assert(entries.filter(pred).contains(e)) by {
                    assert(entries.filter(pred)[i] == e);
                }
                assert(entries.contains(e));
                let k = choose|k: int| 0 <= k < entries.len() && entries[k] == e;
                assert(pred(e));
            }
        }
        let ghost swept = *self;

        // Classify the peeked source, then locate the entry and the stream.
        let decision = self.acceptor.classify(src);
        let (ei, si): (usize, usize) = match decision {
            AcceptDecision::SignalExisting(i) => {
                let s_opt = find_stream(&self.streams, src);
                match s_opt {
                    Some(s) => (i, s),
                    None => {
                        proof {
                            assert(has_addr(swept.acceptor.registry@, src));
                            let k = choose|k: int|
                                0 <= k < swept.acceptor.registry@.len()
                                    && swept.acceptor.registry@[k].addr == src;
                            assert(has_peer(swept.streams@, src));
                            assert(false);
                        }
                        (i, 0)
                    },
                }
            },
            AcceptDecision::NewStream(s) => {
                proof {
                    if has_peer(swept.streams@, src) {
                        let k = choose|k: int|
                            0 <= k < swept.streams@.len() && swept.streams@[k].peer() == src;
                        assert(has_addr(swept.acceptor.registry@, src));
                        assert(false);
                    }
                }
                self.streams.push(s);
                let ei = self.acceptor.registry.len() - 1;
                let si = self.streams.len() - 1;
                (ei, si)
            },
        };
        proof {
            assert(ei < self.acceptor.registry@.len());
            assert(self.acceptor.registry@[ei as int].addr == src);
            assert(self.acceptor.registry@[ei as int].gate.available());
            assert(!self.acceptor.registry@[ei as int].gate.consumed());
            assert(si < self.streams@.len());
            assert(self.streams@[si as int].peer() == src);
            assert(self.streams@[si as int].pending_wait());
            assert(!self.streams@[si as int].timed_out());
            // Entries other than the signalled one are as the sweep left
            // them, in both branches.
            assert forall|j: int|
                0 <= j < self.acceptor.registry@.len() && j != ei implies self.acceptor.registry@[j]
                    == swept.acceptor.registry@[j] by {}
            // Streams other than the reader are as before, in both branches.
            assert forall|j: int|
                0 <= j < self.streams@.len() && j != si implies self.streams@[j]
                    == swept.streams@[j] by {}
        }
        let ghost mid = *self;

        // The consumer's read poll: the watchdog is quiet (the read happens
        // now), a subscription is in flight, and the acceptor has raised
        // `data_available` — so the rendezvous goes through.
        let mut st = self.streams[si];
        let step = st.poll_step(false);
        proof {
            assert(step == ReadStep::AwaitData);
        }
        let fired = self.acceptor.registry.poll_available(ei);
        proof {
            assert(fired);
        }
        st.on_gate_ready();
        let out = st.complete_read(src, &dgram.payload, dgram.payload.len());
        self.streams.set(si, st);
        self.acceptor.registry.signal_consumed(ei);

        // The producer observes the consumption and clears the pending-ack
        // slot; both latches come back to rest.
        let _ = self.acceptor.take_pending_ack();
        let acked = self.acceptor.registry.poll_consumed(ei);
        proof {
            assert(acked);
            // The registry after the rendezvous: same addresses as after
            // classification, every gate back at rest, nothing queued.
            assert(self.acceptor.registry@.len() == mid.acceptor.registry@.len());
            assert forall|j: int| 0 <= j < self.acceptor.registry@.len() implies (
            #[trigger] self.acceptor.registry@[j]).addr == mid.acceptor.registry@[j].addr && (j
                != ei ==> self.acceptor.registry@[j] == mid.acceptor.registry@[j]) by {}
            assert(entry_addrs_unique(self.acceptor.registry@));
            assert(self.acceptor.registry.queued() =~= Seq::<PeerAddr>::empty());
            assert forall|j: int| 0 <= j < self.acceptor.registry@.len() implies !(
            #[trigger] self.acceptor.registry@[j]).gate.available()
                && !self.acceptor.registry@[j].gate.consumed() by {
                if j != ei {
                    assert(self.acceptor.registry@[j] == mid.acceptor.registry@[j]);
                    assert(mid.acceptor.registry@[j] == swept.acceptor.registry@[j]);
                }
            }
            // Streams: only the reader changed, and only its flags; every
            // stream is ready for the next round.
            assert forall|j: int| 0 <= j < self.streams@.len() implies (
            #[trigger] self.streams@[j]).peer() == mid.streams@[j].peer()
                && self.streams@[j].pending_wait() && !self.streams@[j].timed_out() by {
                if j != si {
                    assert(self.streams@[j] == mid.streams@[j]);
                    assert(mid.streams@[j] == swept.streams@[j]);
                    assert(swept.streams@[j] == pre.streams@[j]);
                }
            }
            assert(peers_unique(self.streams@)) by {
                assert forall|p: int, q: int|
                    0 <= p < q < self.streams@.len() implies self.streams@[p].peer()
                        != self.streams@[q].peer() by {
                    assert(self.streams@[p].peer() == mid.streams@[p].peer());
                    assert(self.streams@[q].peer() == mid.streams@[q].peer());
                    if q < swept.streams@.len() {
                        assert(mid.streams@[p] == swept.streams@[p] || p == si as int);
                        assert(swept.streams@[p] == pre.streams@[p]);
                    } else {
                        // q is the pushed stream, whose peer was unknown.
                        assert(mid.streams@[q].peer() == src);
                        assert(!has_peer(swept.streams@, src));
                        assert(mid.streams@[p] == swept.streams@[p]);
                    }
                }
            }
            // Every live stream is registered, and every entry has a live
            // stream.
            assert forall|j: int| 0 <= j < self.streams@.len() implies has_addr(
                self.acceptor.registry@,
                #[trigger] self.streams@[j].peer(),
            ) by {
                let p = self.streams@[j].peer();
                if j == si as int {
                    assert(self.acceptor.registry@[ei as int].addr == src);
                } else {
                    assert(mid.streams@[j] == swept.streams@[j]);
                    assert(has_addr(swept.acceptor.registry@, p));
                    let k = choose|k: int|
                        0 <= k < swept.acceptor.registry@.len() && swept.acceptor.registry@[k].addr
                            == p;
                    assert(mid.acceptor.registry@[k].addr == p || k == ei as int);
                    assert(self.acceptor.registry@[k].addr == mid.acceptor.registry@[k].addr);
                }
            }
            assert forall|j: int| 0 <= j < self.acceptor.registry@.len() implies has_peer(
                self.streams@,
                (#[trigger] self.acceptor.registry@[j]).addr,
            ) by {
                let a = self.acceptor.registry@[j].addr;
                if j == ei as int {
                    assert(a == src);
                    assert(self.streams@[si as int].peer() == src);
                } else {
                    assert(mid.acceptor.registry@[j] == swept.acceptor.registry@[j]);
                    assert(has_peer(swept.streams@, a));
                    let k = choose|k: int|
                        0 <= k < swept.streams@.len() && swept.streams@[k].peer() == a;
                    assert(a != src) by {
                        assert(self.acceptor.registry@[ei as int].addr == src);
                    }
                    assert(k != si as int);
                    assert(mid.streams@[k] == swept.streams@[k]);
                    assert(self.streams@[k].peer() == a);
                }
            }
            // The delivery postconditions on stream counts.
            assert(has_peer(self.streams@, src)) by {
                assert(self.streams@[si as int].peer() == src);
            }
            if has_peer(pre.streams@, src) {
                assert(self.streams@.len() == pre.streams@.len()) by {
                    if mid.streams@.len() != swept.streams@.len() {
                        assert(!has_peer(swept.streams@, src));
                    }
                }
            }
            assert forall|j: int| 0 <= j < pre.streams@.len() implies (
            #[trigger] self.streams@[j]).peer() == pre.streams@[j].peer() by {
                if j != si {
                    assert(self.streams@[j] == mid.streams@[j]);
                    assert(mid.streams@[j] == swept.streams@[j]);
                }
            }
        }
        Delivery { peer: src, payload: out }
    }

    /// The consumer drops the stream at index `si`: the peer's address is
    /// queued for deferred deletion, the in-flight subscription is released
    /// before its gate, and `data_consumed` is raised so an acceptor
    /// waiting on this peer wakes. The registry entry itself stays until the
    /// acceptor next sweeps.
    pub fn drop_stream(&mut self, si: usize)
        requires
            old(self).wf(),
            si < old(self).streams@.len(),
        ensures
            final(self).wf(),
            final(self).streams@ =~= old(self).streams@.remove(si as int),
            final(self).acceptor.registry@.len() == old(self).acceptor.registry@.len(),
            forall|j: int|
                0 <= j < old(self).acceptor.registry@.len() ==> (
                #[trigger] final(self).acceptor.registry@[j]).addr
                    == old(self).acceptor.registry@[j].addr,
            final(self).acceptor.registry.queued() =~= old(self).acceptor.registry.queued().push(
                old(self).streams@[si as int].peer(),
            ),
            final(self).acceptor.idle_timeout_ms == old(self).acceptor.idle_timeout_ms,
    {
        let ghost pre = *self;
        let mut st = self.streams.remove(si);
        let peer = st.peer_addr();
        // Queue the address for the acceptor's next sweep.
        self.acceptor.registry.enqueue_delete(peer);
        // Release the in-flight subscription before its gate goes.
        st.on_drop();
        // Unblock an acceptor waiting for this peer to consume.
        let e_opt = self.acceptor.registry.find(peer);
        match e_opt {
            Some(ei) => {
                self.acceptor.registry.signal_consumed(ei);
                proof {
                    let newq = self.acceptor.registry.queued();
                    assert(newq =~= pre.acceptor.registry.queued().push(peer));
                    // Remaining streams keep their entries and stay
                    // unqueued.
                    assert forall|i: int| 0 <= i < self.streams@.len() implies has_addr(
                        self.acceptor.registry@,
                        #[trigger] self.streams@[i].peer(),
                    ) && !self.acceptor.registry.queued().contains(self.streams@[i].peer())
                        && self.streams@[i].pending_wait() && !self.streams@[i].timed_out() by {
                        let p = self.streams@[i].peer();
                        let oi: int = if i < si { i } else { i + 1 };
                        assert(self.streams@[i] == pre.streams@[oi]);
                        assert(pre.streams@[oi].peer() == p);
                        assert(pre.wf());
                        assert(0 <= oi < pre.streams@.len());
                        assert(pre.streams@[oi].pending_wait());
                        assert(!pre.streams@[oi].timed_out());
                        assert(has_addr(pre.acceptor.registry@, p));
                        let k = choose|k: int|
                            0 <= k < pre.acceptor.registry@.len() && pre.acceptor.registry@[k].addr
                                == p;
                        assert(self.acceptor.registry@[k].addr == p);
                        assert(p != pre.streams@[si as int].peer());
                        assert(!pre.acceptor.registry.queued().contains(p));
                        assert(!newq.contains(p)) by {
                            assert forall|t: int| 0 <= t < newq.len() implies newq[t] != p by {
                                if t < pre.acceptor.registry.queued().len() {
                                    assert(pre.acceptor.registry.queued()[t] == newq[t]);
                                } else {
                                    assert(newq[t] == peer);
                                }
                            }
                        }
                    }
                    // Every entry still belongs to a live stream or to a
                    // queued one.
                    assert forall|i: int|
                        0 <= i < self.acceptor.registry@.len() implies (has_peer(
                        self.streams@,
                        (#[trigger] self.acceptor.registry@[i]).addr,
                    ) || self.acceptor.registry.queued().contains(
                        self.acceptor.registry@[i].addr,
                    )) by {
                        let a = self.acceptor.registry@[i].addr;
                        assert(pre.acceptor.registry@[i].addr == a);
                        if a == peer {
                            assert(newq.contains(a)) by {
                                assert(newq.last() == a);
                            }
                        } else if pre.acceptor.registry.queued().contains(a) {
                            let t = choose|t: int|
                                0 <= t < pre.acceptor.registry.queued().len()
                                    && pre.acceptor.registry.queued()[t] == a;
                            assert(newq[t] == a);
                            assert(newq.contains(a));
                        } else {
                            assert(has_peer(pre.streams@, a));
                            let k = choose|k: int|
                                0 <= k < pre.streams@.len() && pre.streams@[k].peer() == a;
                            assert(k != si);
                            let nk: int = if k < si {
                                k
                            } else {
                                k - 1
                            };
                            assert(self.streams@[nk] == pre.streams@[k]);
                            assert(has_peer(self.streams@, a));
                        }
                    }
                    // A raised `data_consumed` now marks only queued peers.
                    assert forall|i: int|
                        0 <= i < self.acceptor.registry@.len() && (
                    #[trigger] self.acceptor.registry@[i]).gate.consumed() implies self
                        .acceptor.registry.queued().contains(self.acceptor.registry@[i].addr) by {
                        if i == ei as int {
                            assert(newq.last() == self.acceptor.registry@[i].addr);
                        } else {
                            assert(self.acceptor.registry@[i] == pre.acceptor.registry@[i]);
                            if pre.acceptor.registry@[i].gate.consumed() {
                                let t = choose|t: int|
                                    0 <= t < pre.acceptor.registry.queued().len()
                                        && pre.acceptor.registry.queued()[t]
                                        == pre.acceptor.registry@[i].addr;
                                assert(newq[t] == pre.acceptor.registry@[i].addr);
                            }
                        }
                    }
                    // No `data_available` was raised, and addresses are
                    // untouched.
                    assert forall|i: int| 0 <= i < self.acceptor.registry@.len() implies !(
                    #[trigger] self.acceptor.registry@[i]).gate.available() && self
                        .acceptor.registry@[i].addr == pre.acceptor.registry@[i].addr by {
                        if i != ei {
                            assert(self.acceptor.registry@[i] == pre.acceptor.registry@[i]);
                        }
                    }
                    assert(entry_addrs_unique(self.acceptor.registry@));
                    assert(peers_unique(self.streams@)) by {
                        assert forall|p: int, q: int|
                            0 <= p < q < self.streams@.len() implies self.streams@[p].peer()
                                != self.streams@[q].peer() by {
                            let op: int = if p < si { p } else { p + 1 };
                            let oq: int = if q < si { q } else { q + 1 };
                            assert(self.streams@[p] == pre.streams@[op]);
                            assert(self.streams@[q] == pre.streams@[oq]);
                        }
                    }
                }
            },
            None => {
                proof {
                    assert(has_addr(pre.acceptor.registry@, pre.streams@[si as int].peer()));
                    assert(false);
                }
            },
        }
    }
}

/// Linear search for the live stream with peer address `a`.
fn find_stream(v: &Vec<PeerStream>, a: PeerAddr) -> (r: Option<usize>)
    ensures
        match r {
            Some(i) => i < v@.len() && v@[i as int].peer() == a,
            None => !has_peer(v@, a),
        },
{
    let n = v.len();
    let mut i: usize = 0;
    while i < n
        invariant
            n == v@.len(),
            i <= n,
            forall|j: int| 0 <= j < i ==> v@[j].peer() != a,
        decreases n - i,
    {
        if v[i].peer_addr() == a {
            return Some(i);
        }
        i += 1;
    }
    None
}

/// The payloads of the datagrams whose source is `p`, in kernel arrival
/// order.
pub open spec fn sent_by(dgrams: Seq<Datagram>, p: PeerAddr) -> Seq<Seq<u8>>
    decreases dgrams.len(),
{
    if dgrams.len() == 0 {
        Seq::empty()
    } else {
        let rest = sent_by(dgrams.drop_last(), p);
        if dgrams.last().src == p {
            rest.push(dgrams.last().payload@)
        } else {
            rest
        }
    }
}

/// The payloads that the stream with peer `p` read, in read order.
pub open spec fn read_by(ds: Seq<Delivery>, p: PeerAddr) -> Seq<Seq<u8>>
    decreases ds.len(),
{
    if ds.len() == 0 {
        Seq::empty()
    } else {
        let rest = read_by(ds.drop_last(), p);
        if ds.last().peer == p {
            rest.push(ds.last().payload@)
        } else {
            rest
        }
    }
}

/// Framing preservation: when each delivery goes to the stream whose peer is
/// the corresponding datagram's source and carries its payload — as
/// `deliver_next` and `run_demux` guarantee — then, for every peer, the
/// consecutive reads on that peer's stream return exactly that peer's
/// consecutive datagrams' payloads, byte for byte, in order.
pub proof fn lemma_framing_preserved(dgrams: Seq<Datagram>, ds: Seq<Delivery>, p: PeerAddr)
    requires
        ds.len() == dgrams.len(),
        forall|i: int|
            0 <= i < dgrams.len() ==> (#[trigger] ds[i]).peer == dgrams[i].src && ds[i].payload@
                == dgrams[i].payload@,
    ensures
        read_by(ds, p) == sent_by(dgrams, p),
    decreases dgrams.len(),
{
    if dgrams.len() == 0 {
        assert(read_by(ds, p) =~= sent_by(dgrams, p));
    } else {
        assert forall|i: int| 0 <= i < dgrams.drop_last().len() implies (
        #[trigger] ds.drop_last()[i]).peer == dgrams.drop_last()[i].src
            && ds.drop_last()[i].payload@ == dgrams.drop_last()[i].payload@ by {
            assert(ds.drop_last()[i] == ds[i]);
            assert(dgrams.drop_last()[i] == dgrams[i]);
        }
        lemma_framing_preserved(dgrams.drop_last(), ds.drop_last(), p);
        assert(ds.last() == ds[ds.len() - 1]);
        assert(dgrams.last() == dgrams[dgrams.len() - 1]);
    }
}

/// For every peer address with a live stream, the registry contains exactly
/// one entry for that address: it occurs at some index, and at no two
/// different ones.
pub proof fn lemma_live_peer_registered_once(d: Demux, si: int)
    requires
        d.wf(),
        0 <= si < d.streams@.len(),
    ensures
        has_addr(d.acceptor.registry@, d.streams@[si].peer()),
        forall|i: int, j: int|
            0 <= i < d.acceptor.registry@.len() && 0 <= j < d.acceptor.registry@.len() && (
            #[trigger] d.acceptor.registry@[i]).addr == d.streams@[si].peer() && (
            #[trigger] d.acceptor.registry@[j]).addr == d.streams@[si].peer() ==> i == j,
{
    let p = d.streams@[si].peer();
    assert(has_addr(d.acceptor.registry@, p));
    assert forall|i: int, j: int|
        0 <= i < d.acceptor.registry@.len() && 0 <= j < d.acceptor.registry@.len() && (
        #[trigger] d.acceptor.registry@[i]).addr == p && (#[trigger] d.acceptor.registry@[j]).addr
            == p implies i == j by {
        if i < j {
            assert(d.acceptor.registry@[i].addr != d.acceptor.registry@[j].addr);
        } else if j < i {
            assert(d.acceptor.registry@[j].addr != d.acceptor.registry@[i].addr);
        }
    }
}

/// Deliver a whole sequence of datagrams, one acceptor iteration each, with
/// every consumer reading continuously.
///
/// Every datagram is delivered — none is dropped or held back — and the
/// i-th delivery goes to the stream whose peer is the i-th datagram's
/// source, byte for byte. Framing is preserved: one datagram, one read.
pub fn run_demux(dgrams: &Vec<Datagram>, idle_timeout_ms: Option<u64>) -> (ds: Vec<Delivery>)
    ensures
        ds@.len() == dgrams@.len(),
        forall|i: int|
            0 <= i < dgrams@.len() ==> (#[trigger] ds@[i]).peer == dgrams@[i].src
                && ds@[i].payload@ == dgrams@[i].payload@,
{
    let mut d = Demux::new(idle_timeout_ms);
    let mut out: Vec<Delivery> = Vec::new();
    let n = dgrams.len();
    let mut i: usize = 0;
    while i < n
        invariant
            n == dgrams@.len(),
            i <= n,
            d.wf(),
            out@.len() == i,
            forall|j: int|
                0 <= j < i ==> (#[trigger] out@[j]).peer == dgrams@[j].src && out@[j].payload@
                    == dgrams@[j].payload@,
        decreases n - i,
    {
        let dv = d.deliver_next(&dgrams[i]);
        out.push(dv);
        i += 1;
    }
    out
}

} // verus!
