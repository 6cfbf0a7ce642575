//! Whom a request is counted against.

use vstd::prelude::*;

verus! {

/// The part of an address by which requests are counted: the first three
/// bytes of an address of four bytes, and the first four of a longer one.
#[derive(Clone, Copy, Debug, PartialEq, Eq, Hash, Structural)]
pub struct RatelimitIp(pub u8, pub u8, pub u8, pub u8);

impl RatelimitIp {
    /// What requests from an address of four bytes are counted against.
    pub fn from_v4(octets: [u8; 4]) -> (ip: RatelimitIp)
        ensures
            ip == RatelimitIp(octets@[0], octets@[1], octets@[2], 0),
    {
        RatelimitIp(octets[0], octets[1], octets[2], 0)
    }

    /// What requests from an address of sixteen bytes are counted against.
    pub fn from_v6(octets: [u8; 16]) -> (ip: RatelimitIp)
        ensures
            ip == RatelimitIp(octets@[0], octets@[1], octets@[2], octets@[3]),
    {
        RatelimitIp(octets[0], octets[1], octets[2], octets[3])
    }
}

} // verus!
