//! The capability interface the protocol needs from a network transport.
//!
//! The node may sit on wifi or on wired ethernet; the protocol core only ever
//! asks the transport for its addressing and whether the link is up.
//! Addresses appear here as plain 32-bit values; the surrounding event loop
//! converts to and from its socket types.

use vstd::prelude::*;

verus! {

/// The subnet's broadcast address: the host bits of the address all ones.
pub open spec fn spec_broadcast_of(ip: u32, subnet: u32) -> u32 {
    ip | !subnet
}

/// Compute the subnet's broadcast address from an interface address and its
/// subnet mask.
pub fn broadcast_of(ip: u32, subnet: u32) -> (r: u32)
    ensures
        r == spec_broadcast_of(ip, subnet),
{
    ip | !subnet
}

/// What the protocol needs from a network transport, wifi or wired alike:
/// its addressing and whether the link is up. Connecting and waiting belong
/// to the surrounding event loop.
pub trait NetworkInterface: Sized {
    /// The interface's IPv4 address, as its 32-bit value.
    fn get_ip(&self) -> u32;

    /// The interface's subnet mask, as its 32-bit value.
    fn get_subnet(&self) -> u32;

    /// Whether the link is up.
    fn is_up(&self) -> bool;

    /// Where this node broadcasts its hello: the subnet's broadcast address.
    fn get_broadcast(&self) -> u32 {
        broadcast_of(self.get_ip(), self.get_subnet())
    }
}

} // verus!
