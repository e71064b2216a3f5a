//! mDNS service discovery values.

use vstd::prelude::*;
use vstd::string::StringExecFns;
use crate::addr::Ipv4Addr;
use crate::dns::packet::{DnsPacket, DnsPacketHeader};
use crate::dns::query::{DnsQuestion, DnsQuestionClass, DnsQuestionType};
use crate::dns::udp_mdns_multicast_addr;

verus! {

/// One advertised service kind: a human name and the subdomain it is
/// browsed under.
#[derive(Clone, Copy, PartialEq, Debug)]
pub struct Service {
    pub svc_name: &'static str,
    pub subdomain: &'static str,
    pub ip: Option<Ipv4Addr>,
    pub port: Option<u16>,
}

impl Service {
    /// A service kind not yet located anywhere.
    pub fn new(svc_name: &'static str, subdomain: &'static str) -> (s: Service)
        ensures
            s.svc_name == svc_name,
            s.subdomain == subdomain,
            s.ip is None,
            s.port is None,
    {
        Service { svc_name, subdomain, ip: None, port: None }
    }

    /// The browse question for this service: its subdomain under
    /// `._tcp.local`, as a PTR query.
    pub fn to_question(&self) -> (q: DnsQuestion)
        ensures
            q.name@ == self.subdomain@ + "._tcp.local"@,
            q.qtype == DnsQuestionType::Ptr,
            q.qclass == DnsQuestionClass::In,
    {
        let name = String::from_str(self.subdomain).concat("._tcp.local");
        DnsQuestion::new(name)
    }
}

/// A device that answered a service browse, with the reply it sent.
pub struct ServiceDevice {
    pub svc_name: &'static str,
    pub packet: Option<DnsPacket>,
}

impl ServiceDevice {
    /// Record one reply under the service's name.
    pub fn build_from_dns(svc_name: &'static str, packet: DnsPacket) -> (d: ServiceDevice)
        ensures
            d.svc_name == svc_name,
            d.packet == Some(packet),
    {
        ServiceDevice { svc_name, packet: Some(packet) }
    }
}

/// The one browse message for a set of services: a query to the mDNS
/// group, transaction id 1, one PTR question per service.
pub fn build_service_query_packet(svcs: &Vec<Service>) -> (p: DnsPacket)
    requires
        svcs@.len() <= 0xffff,
    ensures
        p.header == (DnsPacketHeader {
            trans_id: 0x01,
            n_qs: svcs@.len() as u16,
            ..DnsPacketHeader::spec_default()
        }),
        p.dest_ip == Some(Ipv4Addr { a: 224, b: 0, c: 0, d: 251 }),
        p.questions@.len() == svcs@.len(),
        forall|i: int|
            0 <= i < svcs@.len() ==> (#[trigger] p.questions@[i]).name@ == svcs@[i].subdomain@
                + "._tcp.local"@ && p.questions@[i].qtype == DnsQuestionType::Ptr,
{
    let mut packet = DnsPacket::new(0x01, udp_mdns_multicast_addr());
    let mut i: usize = 0;
    while i < svcs.len()
        invariant
            i <= svcs@.len() <= 0xffff,
            packet.header == (DnsPacketHeader {
                trans_id: 0x01,
                n_qs: i as u16,
                ..DnsPacketHeader::spec_default()
            }),
            packet.dest_ip == Some(Ipv4Addr { a: 224, b: 0, c: 0, d: 251 }),
            packet.qsizes@ == Seq::<usize>::empty(),
            packet.answers@ == Seq::<crate::dns::query::DnsAnswer>::empty(),
            packet.questions@.len() == i,
            forall|j: int|
                0 <= j < i ==> (#[trigger] packet.questions@[j]).name@ == svcs@[j].subdomain@
                    + "._tcp.local"@ && packet.questions@[j].qtype == DnsQuestionType::Ptr,
        decreases svcs@.len() - i,
    {
        let q = svcs[i].to_question();
        packet.add_q(q);
        i = i + 1;
    }
    packet
}

} // verus!
