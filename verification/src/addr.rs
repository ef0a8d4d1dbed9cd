//! Plain representations of socket addresses.
//!
//! A peer is identified by its source address (IP and port) as seen by the
//! listening socket. The demultiplexer only ever compares addresses for
//! equality and checks the address family, so an address is held as plain
//! integers.

use vstd::prelude::*;

verus! {

/// An IP address, either a 32-bit IPv4 address or a 128-bit IPv6 address,
/// in big-endian integer form.
#[derive(Clone, Copy, PartialEq, Eq, Structural, Debug)]
pub enum IpRepr {
    V4(u32),
    V6(u128),
}

/// A remote endpoint: IP address plus port. This is the identity key of a
/// peer throughout the demultiplexer.
#[derive(Clone, Copy, PartialEq, Eq, Structural, Debug)]
pub struct PeerAddr {
    pub ip: IpRepr,
    pub port: u16,
}

impl PeerAddr {
    /// True when the address belongs to the IPv6 family.
    pub fn is_v6(&self) -> (r: bool)
        ensures
            r == self.ip is V6,
    {
        match self.ip {
            IpRepr::V4(_) => false,
            IpRepr::V6(_) => true,
        }
    }
}

} // verus!
