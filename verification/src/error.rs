//! Error kinds surfaced by the demultiplexer and the client adapter.

use vstd::prelude::*;

use crate::addr::PeerAddr;

verus! {

/// Every failure the library reports.
///
/// `Bind` is fatal to the server before it starts; `Peek` is fatal to the
/// acceptor and ends the stream of new peers; `Receive` and `Send` surface
/// transient kernel errors to the caller and leave the stream usable;
/// `Timeout` carries the idle peer's address and leaves the stream dead;
/// `Resolve` and `Connect` are reported by the client-side connector,
/// `Connect` carrying the last kernel error code observed, if any.
#[derive(Clone, Copy, Debug, PartialEq, Eq, Structural)]
pub enum UdpError {
    Bind,
    Peek,
    Receive,
    Send,
    Timeout(PeerAddr),
    Resolve,
    Connect(Option<u32>),
}

} // verus!
