//! Transport addresses.

use vstd::prelude::*;

verus! {

/// The host part of an address, as the number that its bytes spell in
/// network order.
#[derive(Clone, Copy, Debug, PartialEq, Eq, Structural)]
pub enum Host {
    V4(u32),
    V6(u128),
}

/// A transport address: host and port. It names where an endpoint binds and
/// where a message goes or came from.
#[derive(Clone, Copy, Debug, PartialEq, Eq, Structural)]
pub struct Endpoint {
    pub host: Host,
    pub port: u16,
}

/// The number that four bytes spell in network order.
pub open spec fn quad(a: u8, b: u8, c: u8, d: u8) -> int {
    a * 0x100_0000 + b * 0x1_0000 + c * 0x100 + d
}

impl Endpoint {
    /// The IPv4 address `a.b.c.d` with the given port.
    pub fn v4(a: u8, b: u8, c: u8, d: u8, port: u16) -> (r: Self)
        ensures
            r.host == Host::V4(quad(a, b, c, d) as u32),
            quad(a, b, c, d) <= u32::MAX,
            r.port == port,
    {
        let high: u32 = a as u32 * 0x100_0000 + b as u32 * 0x1_0000;
        let low: u32 = c as u32 * 0x100 + d as u32;
        Endpoint { host: Host::V4(high + low), port }
    }

    /// The port 0 asks the operating system to pick one.
    pub open spec fn is_ephemeral(self) -> bool {
        self.port == 0
    }

    /// Tells whether the operating system is to pick the port.
    pub fn ephemeral(&self) -> (r: bool)
        ensures
            r == self.is_ephemeral(),
    {
        self.port == 0
    }
}

} // verus!
