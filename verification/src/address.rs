//! Network addresses as plain data.

use vstd::prelude::*;

verus! {

/// The address of one end of a connection: an IP address and a port, with
/// the flow information and scope that an IPv6 socket address carries.
#[derive(Debug, Clone, Copy, PartialEq, Eq, Structural)]
#[allow(inconsistent_fields)]
pub enum PeerAddr {
    V4 { ip: u32, port: u16 },
    V6 { ip: u128, port: u16, flowinfo: u32, scope_id: u32 },
}

impl PeerAddr {
    /// The port of the address.
    pub open spec fn spec_port(self) -> u16 {
        match self {
            PeerAddr::V4 { port, .. } => port,
            PeerAddr::V6 { port, .. } => port,
        }
    }

    /// The address with its port replaced by `port`.
    pub open spec fn spec_with_port(self, port: u16) -> PeerAddr {
        match self {
            PeerAddr::V4 { ip, .. } => PeerAddr::V4 { ip, port },
            PeerAddr::V6 { ip, flowinfo, scope_id, .. } => PeerAddr::V6 {
                ip,
                port,
                flowinfo,
                scope_id,
            },
        }
    }

    /// The port of the address.
    #[verifier::when_used_as_spec(spec_port)]
    pub fn port(self) -> (r: u16)
        ensures
            r == self.spec_port(),
    {
        match self {
            PeerAddr::V4 { port, .. } => port,
            PeerAddr::V6 { port, .. } => port,
        }
    }

    /// The address on the same host at another port: where the server dials
    /// back to reach the port that a client listens on.
    #[verifier::when_used_as_spec(spec_with_port)]
    pub fn with_port(self, port: u16) -> (r: PeerAddr)
        ensures
            r == self.spec_with_port(port),
    {
        match self {
            PeerAddr::V4 { ip, .. } => PeerAddr::V4 { ip, port },
            PeerAddr::V6 { ip, flowinfo, scope_id, .. } => PeerAddr::V6 {
                ip,
                port,
                flowinfo,
                scope_id,
            },
        }
    }
}

} // verus!
