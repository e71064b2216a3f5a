//! DNS-family wire codec and transaction descriptions.
//!
//! Two incompatible dialects share this module: RFC 1035 framing with name
//! compression (used for mDNS and unicast reverse lookups), and the legacy
//! NetBIOS Name Service node-status layout. Encoding and decoding are
//! bit-exact; the sockets that carry the packets live outside the library.

pub mod encoders;
pub mod laws;
pub mod name;
pub mod packet;
pub mod query;
pub mod rdata;
pub mod wire;

use vstd::prelude::*;
use crate::addr::Ipv4Addr;

verus! {

/// Destination port of the multicast DNS group.
pub const UDP_MDNS_MULTICAST_PORT: u16 = 5353;

/// The mDNS multicast group, 224.0.0.251.
pub fn udp_mdns_multicast_addr() -> (r: Ipv4Addr)
    ensures
        r == (Ipv4Addr { a: 224, b: 0, c: 0, d: 251 }),
{
    Ipv4Addr { a: 224, b: 0, c: 0, d: 251 }
}

/// How a reverse-lookup transaction reaches the wire: straight to one host,
/// or to the mDNS multicast group.
#[derive(Clone, Copy, PartialEq, Eq, Structural, Debug)]
pub enum UdpTransactorType {
    HostTransact,
    MulticastTransact,
}

/// The UDP destination port of each reverse-lookup dialect.
#[derive(Clone, Copy, PartialEq, Eq, Structural, Debug)]
pub enum HostnameLookupUdpPort {
    Dns,
    Mdns,
    Nbstat,
}

impl HostnameLookupUdpPort {
    /// The well-known port number: 53 for unicast DNS, 5353 for mDNS, 137
    /// for the NetBIOS name service.
    pub fn port(&self) -> (r: u16)
        ensures
            r == match *self {
                HostnameLookupUdpPort::Dns => 53u16,
                HostnameLookupUdpPort::Mdns => 5353u16,
                HostnameLookupUdpPort::Nbstat => 137u16,
            },
    {
        match *self {
            HostnameLookupUdpPort::Dns => 53,
            HostnameLookupUdpPort::Mdns => 5353,
            HostnameLookupUdpPort::Nbstat => 137,
        }
    }
}

} // verus!
