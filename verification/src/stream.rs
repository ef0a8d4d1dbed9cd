//! The per-peer stream's state machine.
//!
//! A `PeerStream` turns one peer's share of the listening socket into a
//! byte-oriented stream: each read returns exactly one datagram's payload.
//! The asynchronous parts of a read — waiting for its gate's
//! `data_available` signal and the actual socket receive — happen outside;
//! this module holds the decisions: the watchdog ruling at the top of each
//! poll, the bookkeeping when the subscription fires, and the truncating delivery of
//! a received payload.

use vstd::prelude::*;

use crate::addr::PeerAddr;
use crate::error::UdpError;

verus! {

/// What a read poll must do next, decided by `PeerStream::poll_step`.
#[derive(Clone, Copy, Debug, PartialEq, Eq, Structural)]
pub enum ReadStep {
    /// The watchdog fired with no activity since the previous tick (or had
    /// already fired): fail this read with `UdpError::Timeout`.
    Timeout,
    /// A `data_available` subscription is in flight: suspend on it, then
    /// call `on_gate_ready` and poll again.
    AwaitData,
    /// No subscription is pending: receive one datagram from the socket and
    /// hand it to `complete_read`.
    Receive,
}

/// The state a per-peer stream keeps between polls.
#[derive(Clone, Copy)]
pub struct PeerStream {
    peer: PeerAddr,
    watchdog_enabled: bool,
    activity_flag: bool,
    pending_wait: bool,
    timed_out: bool,
}

impl PeerStream {
    /// The remote address this stream reads from and writes to; its identity
    /// key, immutable after creation.
    pub closed spec fn peer(self) -> PeerAddr {
        self.peer
    }

    /// Whether an idle watchdog was configured for this stream.
    pub closed spec fn watchdog_enabled(self) -> bool {
        self.watchdog_enabled
    }

    /// Set on each successful read, cleared on each watchdog tick.
    pub closed spec fn activity_flag(self) -> bool {
        self.activity_flag
    }

    /// At most one in-flight subscription to its gate's `data_available`
    /// signal; established at creation and after each successful read.
    pub closed spec fn pending_wait(self) -> bool {
        self.pending_wait
    }

    /// Once the watchdog has fired without activity the stream is dead:
    /// every later read fails too.
    pub closed spec fn timed_out(self) -> bool {
        self.timed_out
    }

    /// A freshly minted stream: no activity yet, a `data_available`
    /// subscription already in flight (its first datagram is latched on the
    /// gate), watchdog idle.
    pub fn new(peer: PeerAddr, watchdog_enabled: bool) -> (s: PeerStream)
        ensures
            s.peer() == peer,
            s.watchdog_enabled() == watchdog_enabled,
            !s.activity_flag(),
            s.pending_wait(),
            !s.timed_out(),
    {
        PeerStream {
            peer,
            watchdog_enabled,
            activity_flag: false,
            pending_wait: true,
            timed_out: false,
        }
    }

    /// The watchdog ruling at the top of a read poll. `tick_fired` reports
    /// whether the watchdog interval elapsed since the previous poll. If the
    /// tick fired and activity was seen, the flag is cleared and the
    /// watchdog rearmed; if it fired with no activity, or a previous poll
    /// already timed this stream out, the read fails.
    pub fn poll_step(&mut self, tick_fired: bool) -> (r: ReadStep)
        ensures
            final(self).peer() == old(self).peer(),
            final(self).watchdog_enabled() == old(self).watchdog_enabled(),
            final(self).pending_wait() == old(self).pending_wait(),
            final(self).timed_out() == (old(self).timed_out() || (old(self).watchdog_enabled()
                && tick_fired && !old(self).activity_flag())),
            final(self).activity_flag() == (old(self).activity_flag() && !(!old(self).timed_out()
                && old(self).watchdog_enabled() && tick_fired)),
            r == ReadStep::Timeout <==> final(self).timed_out(),
            r == ReadStep::AwaitData <==> (!final(self).timed_out() && old(self).pending_wait()),
            r == ReadStep::Receive <==> (!final(self).timed_out() && !old(self).pending_wait()),
    {
        if self.timed_out {
            return ReadStep::Timeout;
        }
        if self.watchdog_enabled && tick_fired {
            if self.activity_flag {
                self.activity_flag = false;
            } else {
                self.timed_out = true;
                return ReadStep::Timeout;
            }
        }
        if self.pending_wait {
            ReadStep::AwaitData
        } else {
            ReadStep::Receive
        }
    }

    /// The in-flight `data_available` subscription resolved: drop it before
    /// receiving, honouring the subscription's lifetime.
    pub fn on_gate_ready(&mut self)
        requires
            old(self).pending_wait(),
        ensures
            final(self).peer() == old(self).peer(),
            final(self).watchdog_enabled() == old(self).watchdog_enabled(),
            final(self).activity_flag() == old(self).activity_flag(),
            !final(self).pending_wait(),
            final(self).timed_out() == old(self).timed_out(),
    {
        self.pending_wait = false;
    }

    /// Deliver one received datagram to the reader: the payload is copied
    /// into the result up to `cap` bytes (the kernel truncates an oversized
    /// datagram to the buffer's capacity; the rest is lost). The datagram's
    /// source must equal this stream's peer — the acceptor's dispatch
    /// invariant. Afterwards activity is recorded and a fresh
    /// `data_available` subscription is in flight for the next round; the
    /// caller then raises `data_consumed` on its gate.
    pub fn complete_read(&mut self, src: PeerAddr, payload: &Vec<u8>, cap: usize) -> (out: Vec<
        u8,
    >)
        requires
            src == old(self).peer(),
            !old(self).timed_out(),
        ensures
            final(self).peer() == old(self).peer(),
            final(self).watchdog_enabled() == old(self).watchdog_enabled(),
            final(self).activity_flag(),
            final(self).pending_wait(),
            !final(self).timed_out(),
            out@ == (if payload@.len() <= cap {
                payload@
            } else {
                payload@.take(cap as int)
            }),
    {
        let n = if payload.len() <= cap {
            payload.len()
        } else {
            cap
        };
        let mut out: Vec<u8> = Vec::new();
        let mut i: usize = 0;
        while i < n
            invariant
                i <= n,
                n <= payload@.len(),
                out@ =~= payload@.take(i as int),
            decreases n - i,
        {
            out.push(payload[i]);
            proof {
                assert(payload@.take(i + 1 as int) =~= payload@.take(i as int).push(
                    payload@[i as int],
                ));
            }
            i += 1;
        }
        self.activity_flag = true;
        self.pending_wait = true;
        proof {
            if payload@.len() <= cap {
                assert(payload@.take(n as int) =~= payload@);
            }
        }
        out
    }

    /// The stream is being dropped: the in-flight subscription is released
    /// before its gate is; the caller then queues this peer for deletion and
    /// raises `data_consumed` to unblock a waiting acceptor.
    pub fn on_drop(&mut self)
        ensures
            final(self).peer() == old(self).peer(),
            !final(self).pending_wait(),
            final(self).watchdog_enabled() == old(self).watchdog_enabled(),
            final(self).activity_flag() == old(self).activity_flag(),
            final(self).timed_out() == old(self).timed_out(),
    {
        self.pending_wait = false;
    }

    /// The failure a timed-out read reports: the watchdog timeout, carrying
    /// this stream's peer address.
    pub fn timeout_error(&self) -> (r: UdpError)
        ensures
            r == UdpError::Timeout(self.peer()),
    {
        UdpError::Timeout(self.peer)
    }

    /// The remote address, as handed to the user of the stream.
    pub fn peer_addr(&self) -> (r: PeerAddr)
        ensures
            r == self.peer(),
    {
        self.peer
    }
}

} // verus!
