//! The rendezvous gate between the producer and one consumer.
//!
//! An `IoGate` carries two independent one-shot latched signals:
//! `data_available`, raised by the acceptor when a datagram from this peer is
//! next in the socket's receive queue, and `data_consumed`, raised by the
//! peer stream once it has drained that datagram. A signal raised with no
//! waiter is latched: the next poll observes it and clears it. Duplicate
//! signals before a poll collapse into one.

use vstd::prelude::*;

verus! {

/// A pair of one-shot latched signals synchronising one producer with one
/// consumer. Each latch is a single bit: raised collapses duplicates, a
/// successful poll clears it.
#[derive(Clone, Copy)]
pub struct IoGate {
    data_available: bool,
    data_consumed: bool,
}

impl IoGate {
    /// The `data_available` latch: a datagram for this peer is pending.
    pub closed spec fn available(self) -> bool {
        self.data_available
    }

    /// The `data_consumed` latch: the peer stream has drained its datagram.
    pub closed spec fn consumed(self) -> bool {
        self.data_consumed
    }

    /// A fresh gate with both latches clear.
    pub fn new() -> (g: IoGate)
        ensures
            !g.available(),
            !g.consumed(),
    {
        IoGate { data_available: false, data_consumed: false }
    }

    /// A gate whose `data_available` latch is already raised, as handed to a
    /// newly minted stream whose first datagram is already waiting in the
    /// kernel queue.
    pub fn new_with_data() -> (g: IoGate)
        ensures
            g.available(),
            !g.consumed(),
    {
        IoGate { data_available: true, data_consumed: false }
    }

    /// Raise `data_available`. A duplicate raise collapses into one.
    pub fn signal_available(&mut self)
        ensures
            final(self).available(),
            final(self).consumed() == old(self).consumed(),
    {
        self.data_available = true;
    }

    /// Raise `data_consumed`. A duplicate raise collapses into one.
    pub fn signal_consumed(&mut self)
        ensures
            final(self).consumed(),
            final(self).available() == old(self).available(),
    {
        self.data_consumed = true;
    }

    /// Poll `data_available`: report whether the latch was raised, and clear
    /// it. Returning `false` means the waiter must keep waiting.
    pub fn poll_available(&mut self) -> (r: bool)
        ensures
            r == old(self).available(),
            !final(self).available(),
            final(self).consumed() == old(self).consumed(),
    {
        let was = self.data_available;
        self.data_available = false;
        was
    }

    /// Poll `data_consumed`: report whether the latch was raised, and clear
    /// it. Returning `false` means the waiter must keep waiting.
    pub fn poll_consumed(&mut self) -> (r: bool)
        ensures
            r == old(self).consumed(),
            !final(self).consumed(),
            final(self).available() == old(self).available(),
    {
        let was = self.data_consumed;
        self.data_consumed = false;
        was
    }
}

} // verus!
