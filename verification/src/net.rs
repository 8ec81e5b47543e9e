//! Plain representations of IP addresses and socket addresses.
//!
//! The proxy core never opens sockets itself; it only decides which address a
//! connection should be forwarded to. Addresses are therefore held as plain
//! integers: a v4 address as its 32-bit value, a v6 address as its 128-bit
//! value.

use vstd::prelude::*;

verus! {

/// An IP address, v4 or v6, as a plain integer value.
#[derive(Clone, Copy, Debug, PartialEq, Eq, Structural)]
pub enum IpAddress {
    V4(u32),
    V6(u128),
}

/// A destination: an IP address together with a port.
#[derive(Clone, Copy, Debug, PartialEq, Eq, Structural)]
pub struct SocketAddress {
    pub ip: IpAddress,
    pub port: u16,
}

impl SocketAddress {
    /// Builds an address from its parts.
    pub fn new(ip: IpAddress, port: u16) -> (r: SocketAddress)
        ensures
            r.ip == ip,
            r.port == port,
    {
        SocketAddress { ip, port }
    }

    /// Builds a v4 address from its four octets and a port.
    pub fn v4(a: u8, b: u8, c: u8, d: u8, port: u16) -> (r: SocketAddress)
        ensures
            r.ip == IpAddress::V4(ip_v4_value(a, b, c, d)),
            r.port == port,
    {
        let value: u32 = ((a as u32) << 24) | ((b as u32) << 16) | ((c as u32) << 8) | (d as u32);
        proof {
            assert(value == ip_v4_value(a, b, c, d)) by (bit_vector)
                requires
                    value == ((a as u32) << 24) | ((b as u32) << 16) | ((c as u32) << 8) | (
                    d as u32),
            ;
        }
        SocketAddress { ip: IpAddress::V4(value), port }
    }
}

/// The 32-bit value of a v4 address written as four octets.
pub open spec fn ip_v4_value(a: u8, b: u8, c: u8, d: u8) -> u32 {
    ((a as int) * 0x1000000 + (b as int) * 0x10000 + (c as int) * 0x100 + (d as int)) as u32
}

} // verus!
