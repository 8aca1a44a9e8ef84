//! Addresses as plain values.

use vstd::prelude::*;

verus! {

/// An IP address: the bits of a version 4 or a version 6 address, most significant first.
#[derive(Clone, Copy, Debug, PartialEq, Eq, Hash, Structural)]
pub enum IpAddr {
    V4(u32),
    V6(u128),
}

/// A socket address. `flowinfo` and `scope_id` are zero for version 4.
#[derive(Clone, Copy, Debug, PartialEq, Eq, Hash, Structural)]
pub struct SocketAddr {
    pub ip: IpAddr,
    pub port: u16,
    pub flowinfo: u32,
    pub scope_id: u32,
}

impl SocketAddr {
    /// The socket address made of an IP address and a port.
    pub fn new(ip: IpAddr, port: u16) -> (a: SocketAddr)
        ensures
            a == (SocketAddr { ip, port, flowinfo: 0, scope_id: 0 }),
    {
        SocketAddr { ip, port, flowinfo: 0, scope_id: 0 }
    }
}

/// The wildcard address of the same family as `endpoint`, with any port: where a datagram socket
/// towards `endpoint` binds.
pub fn bind_addr_for(endpoint: IpAddr) -> (a: SocketAddr)
    ensures
        a.port == 0,
        a.flowinfo == 0,
        a.scope_id == 0,
        endpoint is V6 ==> a.ip == IpAddr::V6(0),
        endpoint is V4 ==> a.ip == IpAddr::V4(0),
{
    match endpoint {
        IpAddr::V6(_) => SocketAddr::new(IpAddr::V6(0), 0),
        IpAddr::V4(_) => SocketAddr::new(IpAddr::V4(0), 0),
    }
}

} // verus!
