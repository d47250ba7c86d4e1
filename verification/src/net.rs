//! Plain-value network addresses.
//!
//! An address is held as the integer that its octets spell in network byte
//! order, so that equality of addresses is equality of integers.

use vstd::prelude::*;

verus! {

/// An IP address: the 32 bits of an IPv4 address or the 128 bits of an IPv6
/// address, most significant octet first.
#[derive(Clone, Copy, Debug, PartialEq, Eq, Structural, Hash)]
pub enum IpAddr {
    V4(u32),
    V6(u128),
}

/// An IP address together with a port.
#[derive(Clone, Copy, Debug, PartialEq, Eq, Structural, Hash)]
pub struct SocketAddr {
    pub ip: IpAddr,
    pub port: u16,
}

impl IpAddr {
    /// Whether this is an IPv4 address.
    pub fn is_ipv4(&self) -> (b: bool)
        ensures
            b == (*self is V4),
    {
        match self {
            IpAddr::V4(_) => true,
            IpAddr::V6(_) => false,
        }
    }
}

impl SocketAddr {
    pub fn new(ip: IpAddr, port: u16) -> (a: SocketAddr)
        ensures
            a.ip == ip,
            a.port == port,
    {
        SocketAddr { ip, port }
    }

    pub fn ip(&self) -> (ip: IpAddr)
        ensures
            ip == self.ip,
    {
        self.ip
    }

    pub fn port(&self) -> (port: u16)
        ensures
            port == self.port,
    {
        self.port
    }
}

} // verus!
