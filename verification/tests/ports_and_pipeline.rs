// The port-list grammar, the probe decision rules, the resolution chain,
// and the per-target pipeline.

use findi::addr::Ipv4Addr;
use findi::error::FindiError;
use findi::host::Host;
use findi::ping::{liveness_outcome, udp_probe_next, PingType, ProbeEvent, ProbeStep};
use findi::ports::{common_ports, parse_portlist};
use findi::resolve::{
    build_lookup_packet, chain_result, nbstat_hostname, ptr_hostname, HostResolutionType,
    ResolveStep, RLOOKUP_TRANS_ID,
};
use findi::dns::packet::DnsPacket;
use findi::dns::{HostnameLookupUdpPort, UdpTransactorType};

#[test]
fn test_port_range_parse() {
    let valid_range = "22,45,100-102,45";
    let range = parse_portlist(valid_range);
    assert_eq!(range.unwrap(), vec![22, 45, 100, 101, 102]);

    let invalid_range = "22,45,100-";
    let range = parse_portlist(invalid_range);
    assert_eq!(range.is_err(), true);

    let invalid_range1 = "22,45-";
    let range = parse_portlist(invalid_range1);
    assert_eq!(range.is_err(), true);
}

#[test]
fn test_port_parse_edges() {
    assert_eq!(parse_portlist("80").unwrap(), vec![80]);
    assert_eq!(parse_portlist("3 - 5").unwrap(), vec![3, 4, 5]);
    assert_eq!(parse_portlist("5-3").unwrap(), Vec::<u16>::new());
    assert_eq!(parse_portlist("00022").unwrap(), vec![22]);
    assert_eq!(parse_portlist("70000").unwrap_err(), FindiError::ParseError);
    assert_eq!(parse_portlist("1-70000").unwrap_err(), FindiError::ParseError);
    assert_eq!(parse_portlist("").unwrap_err(), FindiError::ParseError);
    assert_eq!(parse_portlist("22,,80").unwrap_err(), FindiError::ParseError);
}

#[test]
fn test_common_ports_ascending() {
    let cps = common_ports();
    assert!(cps.contains(&22) && cps.contains(&443) && cps.contains(&8080));
    for w in cps.windows(2) {
        assert!(w[0] < w[1]);
    }
}

#[test]
fn test_udp_probe_rules() {
    assert_eq!(udp_probe_next(0, ProbeEvent::Reply), ProbeStep::ReportUp);
    assert_eq!(udp_probe_next(2, ProbeEvent::SocketError), ProbeStep::ReportUp);
    assert_eq!(udp_probe_next(0, ProbeEvent::TimedOut), ProbeStep::RetryAfter(200));
    assert_eq!(udp_probe_next(1, ProbeEvent::TimedOut), ProbeStep::RetryAfter(400));
    assert_eq!(udp_probe_next(2, ProbeEvent::TimedOut), ProbeStep::RetryAfter(600));
    assert_eq!(udp_probe_next(3, ProbeEvent::TimedOut), ProbeStep::ReportUnreachable);
}

#[test]
fn test_liveness_order() {
    assert_eq!(liveness_outcome(Some(7), Some(9)), Some((7, PingType::UDP)));
    assert_eq!(liveness_outcome(None, Some(9)), Some((9, PingType::TCP)));
    assert_eq!(liveness_outcome(None, None), None);
}

#[test]
fn test_resolve_chain_order() {
    let first = ResolveStep::first();
    assert_eq!(first, ResolveStep::MdnsPtr);
    assert_eq!(first.next(), Some(ResolveStep::UnicastPtr));
    assert_eq!(ResolveStep::UnicastPtr.next(), Some(ResolveStep::Nbstat));
    assert_eq!(ResolveStep::Nbstat.next(), None);

    assert_eq!(ResolveStep::MdnsPtr.port(), HostnameLookupUdpPort::Mdns);
    assert_eq!(ResolveStep::UnicastPtr.port(), HostnameLookupUdpPort::Dns);
    assert_eq!(ResolveStep::Nbstat.port(), HostnameLookupUdpPort::Nbstat);
    assert_eq!(HostnameLookupUdpPort::Mdns.port(), 5353);
    assert_eq!(HostnameLookupUdpPort::Dns.port(), 53);
    assert_eq!(HostnameLookupUdpPort::Nbstat.port(), 137);

    assert_eq!(ResolveStep::MdnsPtr.transactor(), UdpTransactorType::MulticastTransact);
    assert_eq!(ResolveStep::Nbstat.transactor(), UdpTransactorType::HostTransact);
    assert_eq!(ResolveStep::UnicastPtr.method(), HostResolutionType::MDNS);
    assert_eq!(ResolveStep::Nbstat.method(), HostResolutionType::NBNS);
}

#[test]
fn test_chain_first_success_wins() {
    let r = chain_result(Some("a.local".to_string()), Some("b.local".to_string()), None);
    assert_eq!(r.unwrap(), ("a.local".to_string(), HostResolutionType::MDNS));

    let r = chain_result(None, Some("b.local".to_string()), Some("C".to_string()));
    assert_eq!(r.unwrap(), ("b.local".to_string(), HostResolutionType::MDNS));

    let r = chain_result(None, None, Some("C".to_string()));
    assert_eq!(r.unwrap(), ("C".to_string(), HostResolutionType::NBNS));

    let r = chain_result(None, None, None);
    assert_eq!(r.unwrap_err(), FindiError::ResolutionFailed);
}

#[test]
fn test_ptr_hostname_from_reply() {
    let mdns_answer_bytes: Vec<u8> = vec![
        0xfe, 0xed, 0x84, 0x00, 0x00, 0x01, 0x00, 0x01, 0x00, 0x00, 0x00, 0x00, 0x02, 0x32, 0x32,
        0x01, 0x30, 0x03, 0x31, 0x36, 0x38, 0x03, 0x31, 0x39, 0x32, 0x07, 0x69, 0x6e, 0x2d, 0x61,
        0x64, 0x64, 0x72, 0x04, 0x61, 0x72, 0x70, 0x61, 0x00, 0x00, 0x0c, 0x00, 0x01, 0xc0, 0x0c,
        0x00, 0x0c, 0x00, 0x01, 0x00, 0x00, 0x00, 0x0a, 0x00, 0x19, 0x11, 0x4e, 0x69, 0x63, 0x6b,
        0x44, 0x6f, 0x6e, 0x61, 0x6c, 0x64, 0x2d, 0x69, 0x50, 0x68, 0x6f, 0x6e, 0x65, 0x05, 0x6c,
        0x6f, 0x63, 0x61, 0x6c, 0x00,
    ];
    let (packet, _) = DnsPacket::decode(&mdns_answer_bytes).unwrap();
    assert_eq!(ptr_hostname(&packet).unwrap(), "NickDonald-iPhone.local");
}

#[test]
fn test_ptr_hostname_needs_a_ptr_answer() {
    // A reply whose only answer is an A record resolves nothing.
    let bytes: Vec<u8> = vec![
        0xfe, 0xed, 0x84, 0x00, 0x00, 0x00, 0x00, 0x01, 0x00, 0x00, 0x00, 0x00, 0x01, 0x66, 0x00,
        0x00, 0x01, 0x00, 0x01, 0x00, 0x00, 0x00, 0x0a, 0x00, 0x04, 0xc0, 0xa8, 0x00, 0x15,
    ];
    let (packet, _) = DnsPacket::decode(&bytes).unwrap();
    assert_eq!(ptr_hostname(&packet).unwrap_err(), FindiError::UnsupportedRecordType);

    let empty: Vec<u8> = vec![0xfe, 0xed, 0x84, 0x00, 0x00, 0x00, 0x00, 0x00, 0x00, 0x00, 0x00,
        0x00];
    let (packet, _) = DnsPacket::decode(&empty).unwrap();
    assert_eq!(ptr_hostname(&packet).unwrap_err(), FindiError::ResolutionFailed);
}

#[test]
fn test_nbstat_hostname_from_reply() {
    // The node-status block behind a twelve-byte header.
    let mut resp: Vec<u8> = vec![0xb1, 0x05, 0x84, 0x00, 0x00, 0x00, 0x00, 0x01, 0x00, 0x00, 0x00,
        0x00];
    resp.extend_from_slice(&[
        0x20, 0x43, 0x4b, 0x41, 0x41, 0x41, 0x41, 0x41, 0x41, 0x41, 0x41, 0x41, 0x41, 0x41, 0x41,
        0x41, 0x41, 0x41, 0x41, 0x41, 0x41, 0x41, 0x41, 0x41, 0x41, 0x41, 0x41, 0x41, 0x41, 0x41,
        0x41, 0x41, 0x41, 0x00, 0x00, 0x21, 0x00, 0x01, 0x00, 0x00, 0x00, 0x00, 0x00, 0x65, 0x03,
        0x4e, 0x4a, 0x44, 0x2d, 0x53, 0x55, 0x52, 0x46, 0x41, 0x43, 0x45, 0x20, 0x20, 0x20, 0x20,
        0x20, 0x04, 0x00, 0x4e, 0x4a, 0x44, 0x2d, 0x53, 0x55, 0x52, 0x46, 0x41, 0x43, 0x45, 0x20,
        0x20, 0x20, 0x20, 0x00, 0x04, 0x00, 0x57, 0x4f, 0x52, 0x4b, 0x47, 0x52, 0x4f, 0x55, 0x50,
        0x20, 0x20, 0x20, 0x20, 0x20, 0x20, 0x00, 0x84, 0x00, 0xd8, 0xc4, 0x97, 0xec, 0xdb, 0x6d,
    ]);
    assert_eq!(nbstat_hostname(&resp).unwrap(), "NJD-SURFACE");
}

#[test]
fn test_rlookup_query_packet() {
    let ip = Ipv4Addr::new(10, 0, 9, 10);
    let packet = build_lookup_packet(ip, ResolveStep::MdnsPtr);
    assert_eq!(packet.header.trans_id, RLOOKUP_TRANS_ID);
    assert_eq!(packet.header.n_qs, 1);
    assert_eq!(packet.questions[0].name, "10.9.0.10.in-addr.arpa");
}

#[test]
fn test_unreachable_host_is_bare() {
    // A target recorded unreachable keeps no resolution and no ports.
    let ip = Ipv4Addr::new(10, 0, 0, 9);
    let h = Host::host_ping(ip, None, None, Err(FindiError::Timeout));
    assert_eq!(h.ip, ip);
    assert!(h.ping_done);
    assert_eq!(h.ping_res, None);
    assert_eq!(h.ping_type, None);
    assert_eq!(h.host_name, None);
    assert_eq!(h.res_type, None);
    assert!(h.tcp_ports.is_empty());
}

#[test]
fn test_reachable_host_pipeline() {
    let ip = Ipv4Addr::new(10, 0, 0, 7);
    let h = Host::host_ping(
        ip,
        Some(12),
        None,
        Ok(("printer.local".to_string(), HostResolutionType::MDNS)),
    );
    assert!(h.ping_done);
    assert_eq!(h.ping_res, Some(12));
    assert_eq!(h.ping_type, Some(PingType::UDP));
    assert_eq!(h.host_name, Some(Ok("printer.local".to_string())));
    assert_eq!(h.res_type, Some(HostResolutionType::MDNS));
    assert!(h.tcp_ports.is_empty());
}

#[test]
fn test_tcp_fallback_confirms_port_80() {
    let ip = Ipv4Addr::new(10, 0, 0, 8);
    let h = Host::host_ping(ip, None, Some(30), Err(FindiError::ResolutionFailed));
    assert_eq!(h.ping_type, Some(PingType::TCP));
    assert_eq!(h.tcp_ports, vec![80]);
    assert_eq!(h.host_name, Some(Err("Reverse lookup failed".to_string())));
    assert_eq!(h.res_type, None);
}

#[test]
fn test_ports_grow_monotonically() {
    let mut h = Host::new(Ipv4Addr::new(10, 0, 0, 1));
    h.add_tcp_port(443);
    h.add_tcp_port(22);
    h.add_tcp_port(443);
    h.add_tcp_port(80);
    assert_eq!(h.tcp_ports, vec![22, 80, 443]);
}
