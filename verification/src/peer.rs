use vstd::prelude::*;

verus! {

/// The address of a peer: an IP address and a port.
#[derive(Debug, Clone, Copy, PartialEq, Eq, Structural)]
pub enum PeerAddr {
    /// An IPv4 address (its four octets, most significant first) and a port.
    V4 { ip4: u32, port: u16 },
    /// An IPv6 address (its sixteen octets, most significant first), a port,
    /// and the flow label and scope of the address.
    V6 { ip6: u128, port: u16, flowinfo: u32, scope_id: u32 },
}

impl PeerAddr {
    /// The port of the address.
    pub fn port(&self) -> (p: u16)
        ensures
            p == match *self {
                PeerAddr::V4 { port, .. } => port,
                PeerAddr::V6 { port, .. } => port,
            },
    {
        match *self {
            PeerAddr::V4 { port, .. } => port,
            PeerAddr::V6 { port, .. } => port,
        }
    }
}

} // verus!
