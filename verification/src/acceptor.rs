//! The acceptor: classification of incoming datagrams.
//!
//! The acceptor drives the listening socket. On each iteration it sweeps the
//! registry, peeks the source address of the next datagram without consuming
//! it, and then either signals the known peer's gate or mints, registers and
//! yields a new stream. The peeking, the rendezvous waits and the yielding
//! asynchronous and live outside; this module holds the acceptor's state and
//! each decision, with its effect on the registry stated exactly.

use vstd::prelude::*;

use crate::addr::PeerAddr;
use crate::gate::IoGate;
use crate::registry::{Entry, PeerRegistry, has_addr};
use crate::stream::PeerStream;

verus! {

/// What one classification decided.
pub enum AcceptDecision {
    /// The sender is a known peer: its gate's `data_available` was raised;
    /// the acceptor must now await `data_consumed` on the entry at this
    /// index before peeking again.
    SignalExisting(usize),
    /// The sender was unknown: a gate with `data_available` already latched
    /// was registered, the peer was recorded as pending-ack, and this fresh
    /// stream is to be yielded to the caller.
    NewStream(PeerStream),
}

/// The acceptor's own state: the registry it owns, the peer whose first
/// datagram is still unconsumed (pending-ack), and the idle-timeout
/// configuration handed to every new stream.
pub struct Acceptor {
    pub registry: PeerRegistry,
    pub pending_ack: Option<PeerAddr>,
    pub idle_timeout_ms: Option<u64>,
}

impl Acceptor {
    /// A fresh acceptor over an empty registry.
    pub fn new(idle_timeout_ms: Option<u64>) -> (a: Acceptor)
        ensures
            a.registry@ =~= Seq::<Entry>::empty(),
            a.registry.queued() =~= Seq::<PeerAddr>::empty(),
            a.registry.wf(),
            a.pending_ack is None,
            a.idle_timeout_ms == idle_timeout_ms,
    {
        Acceptor { registry: PeerRegistry::new(), pending_ack: None, idle_timeout_ms }
    }

    /// Take the pending-ack peer recorded at the previous yield, clearing
    /// the slot. The caller awaits `data_consumed` on that peer's entry (if
    /// it still has one) before classifying further datagrams.
    pub fn take_pending_ack(&mut self) -> (r: Option<PeerAddr>)
        ensures
            r == old(self).pending_ack,
            final(self).pending_ack is None,
            final(self).registry == old(self).registry,
            final(self).idle_timeout_ms == old(self).idle_timeout_ms,
    {
        let r = self.pending_ack;
        self.pending_ack = None;
        r
    }

    /// Classify the peeked source address of the next datagram.
    ///
    /// A known peer's gate gets `data_available` raised and nothing else
    /// changes. An unknown peer gets a fresh entry whose gate already has
    /// `data_available` latched (its first datagram is waiting in the
    /// kernel), is recorded as pending-ack, and a fresh stream for it is
    /// returned for yielding.
    pub fn classify(&mut self, peer: PeerAddr) -> (r: AcceptDecision)
        requires
            old(self).registry.wf(),
        ensures
            final(self).registry.wf(),
            final(self).idle_timeout_ms == old(self).idle_timeout_ms,
            final(self).registry.queued() == old(self).registry.queued(),
            has_addr(old(self).registry@, peer) ==> (match r {
                AcceptDecision::SignalExisting(i) => {
                    &&& i < old(self).registry@.len()
                    &&& old(self).registry@[i as int].addr == peer
                    &&& final(self).registry@.len() == old(self).registry@.len()
                    &&& final(self).registry@[i as int].addr == peer
                    &&& final(self).registry@[i as int].gate.available()
                    &&& final(self).registry@[i as int].gate.consumed() == old(
                        self,
                    ).registry@[i as int].gate.consumed()
                    &&& forall|j: int|
                        0 <= j < old(self).registry@.len() && j != i ==> final(self).registry@[j]
                            == old(self).registry@[j]
                    &&& final(self).pending_ack == old(self).pending_ack
                },
                AcceptDecision::NewStream(_) => false,
            }),
            !has_addr(old(self).registry@, peer) ==> (match r {
                AcceptDecision::SignalExisting(_) => false,
                AcceptDecision::NewStream(s) => {
                    &&& s.peer() == peer
                    &&& s.watchdog_enabled() == old(self).idle_timeout_ms is Some
                    &&& !s.activity_flag()
                    &&& s.pending_wait()
                    &&& !s.timed_out()
                    &&& final(self).registry@.len() == old(self).registry@.len() + 1
                    &&& forall|j: int|
                        0 <= j < old(self).registry@.len() ==> final(self).registry@[j] == old(
                            self,
                        ).registry@[j]
                    &&& final(self).registry@.last().addr == peer
                    &&& final(self).registry@.last().gate.available()
                    &&& !final(self).registry@.last().gate.consumed()
                    &&& final(self).pending_ack == Some(peer)
                },
            }),
    {
        match self.registry.find(peer) {
            Some(i) => {
                self.registry.signal_available(i);
                AcceptDecision::SignalExisting(i)
            },
            None => {
                let gate = IoGate::new_with_data();
                self.registry.insert(peer, gate);
                self.pending_ack = Some(peer);
                let watchdog = match self.idle_timeout_ms {
                    Some(_) => true,
                    None => false,
                };
                AcceptDecision::NewStream(PeerStream::new(peer, watchdog))
            },
        }
    }

    /// Drain the deletion queue and drop the dead peers' entries; called at
    /// the top of every acceptor iteration, and the only site that removes
    /// entries.
    pub fn sweep(&mut self)
        requires
            old(self).registry.wf(),
        ensures
            final(self).registry@ =~= old(self).registry@.filter(
                |e: Entry| !old(self).registry.queued().contains(e.addr),
            ),
            final(self).registry.queued() =~= Seq::<PeerAddr>::empty(),
            final(self).registry.wf(),
            final(self).pending_ack == old(self).pending_ack,
            final(self).idle_timeout_ms == old(self).idle_timeout_ms,
    {
        self.registry.sweep();
    }
}

} // verus!
