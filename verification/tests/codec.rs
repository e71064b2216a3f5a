// Wire-codec behaviour: encoders, whole-message build and decode, record
// formatting, and the malformed-input errors.

use findi::addr::Ipv4Addr;
use findi::dns::encoders::{second_level_encode, DnsNbstatEncoder, DnsPtrEncoder};
use findi::dns::name::decode_label;
use findi::dns::packet::DnsPacket;
use findi::dns::query::{DnsAnswer, DnsQuestion, DnsQuestionType, NbnsAnswer};
use findi::error::FindiError;

static PACKET_BYTES: [u8; 40] = [
    // Header //
    // Transaction ID
    0xF0, 0xF0, // Flags
    0x00, 0x00,
    // Number of questions, answers, authoritative records, additional records
    0x00, 0x01, 0x00, 0x00, 0x00, 0x00, 0x00, 0x00, // Question //
    // Address query
    0x02, 0x31, 0x30, 0x01, 0x39, 0x01, 0x30, 0x02, 0x31, 0x30, 0x07, 0x69, 0x6e, 0x2d, 0x61,
    0x64, 0x64, 0x72, 0x04, 0x61, 0x72, 0x70, 0x61, 0x00, // Query type "PTR"
    0x00, 0x0C, // Query class "IN"
    0x00, 0x01,
];

static NB_PACKET_BYTES: [u8; 50] = [
    // Header //
    // Transaction ID
    0xF0, 0x0D, // Flags
    0x00, 0x00,
    // Number of questions, answers, authoritative records, additional records
    0x00, 0x01, 0x00, 0x00, 0x00, 0x00, 0x00, 0x00, // Question //
    // Address query
    0x20, 0x43, 0x4b, 0x41, 0x41, 0x41, 0x41, 0x41, 0x41, 0x41, 0x41, 0x41, 0x41, 0x41, 0x41,
    0x41, 0x41, 0x41, 0x41, 0x41, 0x41, 0x41, 0x41, 0x41, 0x41, 0x41, 0x41, 0x41, 0x41, 0x41,
    0x41, 0x41, 0x41, 0x00, // Query type "NBSTAT" (shares SRV's code)
    0x00, 0x21, // Query class "IN"
    0x00, 0x01,
];

#[test]
fn test_second_level_encode() {
    let encoded_val = "DBDACODACODJCODBDA";
    let addr = "10.0.9.10";

    assert_eq!(second_level_encode(addr), encoded_val);

    let nb_query: [u8; 16] = [('*' as u8), 0, 0, 0, 0, 0, 0, 0, 0, 0, 0, 0, 0, 0, 0, 0];

    assert_eq!(
        second_level_encode(std::str::from_utf8(&nb_query).unwrap()),
        "CKAAAAAAAAAAAAAAAAAAAAAAAAAAAAAA"
    );
}

#[test]
fn test_ptr_encoder() {
    let encoded_addr = "\u{2}10\u{1}9\u{1}0\u{2}10\u{7}in-addr\u{4}arpa";
    let ipv4 = Ipv4Addr::new(10, 0, 9, 10);
    let q = DnsQuestion::build_rlookup(ipv4, DnsQuestionType::Ptr);
    assert_eq!(DnsPtrEncoder::encode(&q), encoded_addr.bytes().collect::<Vec<u8>>());
}

#[test]
fn test_nbstat_encoder_block() {
    let q = DnsQuestion::build_rlookup(Ipv4Addr::new(10, 10, 0, 10), DnsQuestionType::Nbstat);
    let block = DnsNbstatEncoder::encode(&q);
    assert_eq!(block.len(), 33);
    assert_eq!(block[0], 0x20);
    assert_eq!(&block[1..], "CKAAAAAAAAAAAAAAAAAAAAAAAAAAAAAA".as_bytes());
}

#[test]
fn test_multicast_dns_packet_build() {
    let tid = 0xF0F0;
    let ip = Ipv4Addr::new(10, 0, 9, 10);
    let mut packet = DnsPacket::new(tid, ip);

    assert_eq!(packet.header.trans_id, tid);

    let q = DnsQuestion::build_rlookup(ip, DnsQuestionType::Ptr);
    packet.add_q(q);

    assert_eq!(packet.header.n_qs, 1);

    assert_eq!(packet.as_bytes().unwrap(), PACKET_BYTES.to_vec());
}

#[test]
fn test_netbios_dns_packet_build() {
    let tid = 0xF00D;

    let ip = Ipv4Addr::new(10, 10, 0, 10);
    let mut packet = DnsPacket::new(tid, ip);
    let nb_q = DnsQuestion::build_rlookup(ip, DnsQuestionType::Nbstat);
    packet.add_q(nb_q);

    assert_eq!(packet.as_bytes().unwrap(), NB_PACKET_BYTES.to_vec());
}

#[test]
pub fn test_tryfrom_packet_bytes() {
    let bytes: Vec<u8> = vec![0, 1, 132, 0, 0, 0, 0, 0, 0, 0, 0, 6];
    let (packet, _) = DnsPacket::decode(&bytes).unwrap();
    let header = packet.header;

    assert_eq!(header.trans_id, 1);
    assert_eq!(header.q_flags, 0x8400);
    assert_eq!(header.n_qs, 0);
    assert_eq!(header.n_answ, 0);
    assert_eq!(header.n_auth, 0);
    assert_eq!(header.n_addn, 6);
}

#[test]
fn test_short_header_is_malformed() {
    let bytes: Vec<u8> = vec![0x00; 11];
    assert_eq!(DnsPacket::decode(&bytes).unwrap_err(), FindiError::MalformedPacket);
}

#[test]
fn test_tryfrom_packet_question_bytes() {
    let bytes: Vec<u8> = vec![
        0x00, 0x01, 0x84, 0x00, 0x00, 0x01, 0x00, 0x01, 0x00, 0x00, 0x00, 0x00, 0x08, 0x5f, 0x61,
        0x69, 0x72, 0x70, 0x6f, 0x72, 0x74, 0x04, 0x5f, 0x74, 0x63, 0x70, 0x05, 0x6c, 0x6f, 0x63,
        0x61, 0x6c, 0x00, 0x00, 0x0c, 0x00, 0x01, 0xc0, 0x0c, 0x00, 0x0c, 0x00, 0x01, 0x00, 0x00,
        0x00, 0x0a, 0x00, 0x06, 0x03, 0x4d, 0x42, 0x52, 0xc0, 0x0c,
    ];

    let (packet, _) = DnsPacket::decode(&bytes).expect("decode failed");

    assert_eq!(packet.header.n_qs, 1);
    assert_eq!(packet.header.n_answ, 1);

    let q = &packet.questions[0];
    assert_eq!(q.name, "_airport._tcp.local");
    assert_eq!(q.qtype, DnsQuestionType::Ptr);

    let a = &packet.answers[0];
    assert_eq!(a.text().unwrap(), "MBR");
    assert_eq!(a.qtype, DnsQuestionType::Ptr);
}

#[test]
pub fn test_tryfrom_dns_question_bytes() {
    let bytes: Vec<u8> = vec![
        0x10, 0x5f, 0x73, 0x70, 0x6f, 0x74, 0x69, 0x66, 0x79, 0x2d, 0x63, 0x6f, 0x6e, 0x6e, 0x65,
        0x63, 0x74, 0x04, 0x5f, 0x74, 0x63, 0x70, 0x05, 0x6c, 0x6f, 0x63, 0x61, 0x6c, 0x00, 0x00,
        0x0c, 0x00, 0x01,
    ];

    let (question, len) = DnsQuestion::decode(&bytes, 0).expect("convert failed");

    assert_eq!(question.name, "_spotify-connect._tcp.local");
    assert_eq!(len, 33);
}

#[test]
pub fn test_tryfrom_dns_answer_bytes() {
    let bytes: Vec<u8> = vec![
        0xc0, 0x0c, 0x00, 0x0c, 0x00, 0x01, 0x00, 0x00, 0x00, 0x0a, 0x00, 0x06, 0x03, 0x4d, 0x42,
        0x52, 0xc0, 0x0c,
    ];

    let (answ, len) = DnsAnswer::decode(&bytes, 0).expect("convert failed");

    assert_eq!(answ.ptr_offset, 0x00c);
    assert_eq!(answ.qtype, DnsQuestionType::Ptr);
    assert_eq!(answ.ttl, 10);
    assert_eq!(answ.text().unwrap(), "MBR");
    assert_eq!(len, 18);
}

#[test]
fn test_nbns_answer_decoder() {
    // Query answer:
    // NJD-SURFACE
    let ans_bytes: Vec<u8> = vec![
        0x20, 0x43, 0x4b, 0x41, 0x41, 0x41, 0x41, 0x41, 0x41, 0x41, 0x41, 0x41, 0x41, 0x41, 0x41,
        0x41, 0x41, 0x41, 0x41, 0x41, 0x41, 0x41, 0x41, 0x41, 0x41, 0x41, 0x41, 0x41, 0x41, 0x41,
        0x41, 0x41, 0x41, 0x00, 0x00, 0x21, 0x00, 0x01, 0x00, 0x00, 0x00, 0x00, 0x00, 0x65, 0x03,
        0x4e, 0x4a, 0x44, 0x2d, 0x53, 0x55, 0x52, 0x46, 0x41, 0x43, 0x45, 0x20, 0x20, 0x20, 0x20,
        0x20, 0x04, 0x00, 0x4e, 0x4a, 0x44, 0x2d, 0x53, 0x55, 0x52, 0x46, 0x41, 0x43, 0x45, 0x20,
        0x20, 0x20, 0x20, 0x00, 0x04, 0x00, 0x57, 0x4f, 0x52, 0x4b, 0x47, 0x52, 0x4f, 0x55, 0x50,
        0x20, 0x20, 0x20, 0x20, 0x20, 0x20, 0x00, 0x84, 0x00, 0xd8, 0xc4, 0x97, 0xec, 0xdb, 0x6d,
        0x00, 0x00, 0x00, 0x00, 0x00, 0x00, 0x00, 0x00, 0x00, 0x00, 0x00, 0x00, 0x00, 0x00, 0x00,
        0x00, 0x00, 0x00, 0x00, 0x00, 0x00, 0x00, 0x00, 0x00, 0x00, 0x00, 0x00, 0x00, 0x00, 0x00,
        0x00, 0x00, 0x00, 0x00, 0x00,
    ];

    let (answer, _) = NbnsAnswer::decode(&ans_bytes, 0).unwrap();
    assert_eq!(answer.hostname, "NJD-SURFACE");
    assert_eq!(answer.names[2], "WORKGROUP");
}

#[test]
fn test_tryfrom_dns_addn_answer_bytes() {
    // Test decoding an additional answer

    // A record bytes
    let addn_bytes: Vec<u8> = vec![
        0x01, 0x66, 0x00, 0x00, 0x01, 0x00, 0x01, 0x00, 0x00, 0x00, 0x0a, 0x00, 0x04, 0xc0, 0xa8,
        0x00, 0x15,
    ];

    let (answer, _) = DnsAnswer::decode(&addn_bytes, 0).unwrap();
    let expected: Vec<u8> = vec![0xc0, 0xa8, 0x00, 0x15];
    assert_eq!(&answer.name, "f");
    assert_eq!(answer.qtype, DnsQuestionType::A);
    assert_eq!(answer.answer_data, expected);
    assert_eq!(answer.text().unwrap(), "192.168.0.21");
}

#[test]
fn test_decode_label() {
    let bytes: Vec<u8> = vec![
        0x00, 0x01, 0x84, 0x00, 0x00, 0x01, 0x00, 0x01, 0x00, 0x00, 0x00, 0x06, 0x08, 0x5f, 0x61,
        0x69, 0x72, 0x70, 0x6f, 0x72, 0x74, 0x04, 0x5f, 0x74, 0x63, 0x70, 0x05, 0x6c, 0x6f, 0x63,
        0x61, 0x6c, 0x00, 0x00, 0x0c, 0x00, 0x01, 0xc0, 0x0c, 0x00, 0x0c, 0x00, 0x01, 0x00, 0x00,
        0x00, 0x0a, 0x00, 0x06, 0x03, 0x4d, 0x42, 0x52, 0xc0, 0x0c,
    ];

    let (name, len) = decode_label(&bytes, 37).unwrap();
    assert_eq!(name, "_airport._tcp.local");
    assert_eq!(2, len);

    let (name2, len2) = decode_label(&bytes, 49).unwrap();
    assert_eq!(name2, "MBR._airport._tcp.local");
    assert_eq!(6, len2);
}

#[test]
fn test_compressed_name_matches_expansion() {
    // The same name twice: once behind a compression pointer inside a
    // message, once fully expanded as a standalone name field.
    let message: Vec<u8> = vec![
        0x00, 0x01, 0x84, 0x00, 0x00, 0x01, 0x00, 0x01, 0x00, 0x00, 0x00, 0x06, 0x08, 0x5f, 0x61,
        0x69, 0x72, 0x70, 0x6f, 0x72, 0x74, 0x04, 0x5f, 0x74, 0x63, 0x70, 0x05, 0x6c, 0x6f, 0x63,
        0x61, 0x6c, 0x00, 0x00, 0x0c, 0x00, 0x01, 0xc0, 0x0c, 0x00, 0x0c, 0x00, 0x01, 0x00, 0x00,
        0x00, 0x0a, 0x00, 0x06, 0x03, 0x4d, 0x42, 0x52, 0xc0, 0x0c,
    ];
    let mut expanded: Vec<u8> = vec![0x03];
    expanded.extend_from_slice(b"MBR");
    expanded.extend_from_slice(&[0x08]);
    expanded.extend_from_slice(b"_airport");
    expanded.extend_from_slice(&[0x04]);
    expanded.extend_from_slice(b"_tcp");
    expanded.extend_from_slice(&[0x05]);
    expanded.extend_from_slice(b"local");
    expanded.push(0x00);

    let (compressed_name, clen) = decode_label(&message, 49).unwrap();
    let (plain_name, plen) = decode_label(&expanded, 0).unwrap();
    assert_eq!(compressed_name, plain_name);
    assert_eq!(clen, 6);
    assert_eq!(plen, expanded.len());
}

#[test]
fn test_pointer_loop_ends_benignly() {
    // A self-referential pointer cannot be followed twice: the name simply
    // ends instead of looping.
    let bytes: Vec<u8> = vec![0xc0, 0x00];
    assert_eq!(decode_label(&bytes, 0).unwrap(), (String::new(), 2));

    // A label that runs past the buffer is malformed.
    let overrun: Vec<u8> = vec![0x05, 0x41];
    assert_eq!(decode_label(&overrun, 0).unwrap_err(), FindiError::MalformedPacket);
}

#[test]
fn test_question_roundtrip_bytes() {
    // Encoding a supported question and decoding the bytes gives the very
    // question back, and re-encoding reproduces the bytes exactly.
    let ip = Ipv4Addr::new(192, 168, 0, 22);
    let mut packet = DnsPacket::new(0xfeed, ip);
    packet.add_q(DnsQuestion::build_rlookup(ip, DnsQuestionType::Ptr));
    let bytes = packet.as_bytes().unwrap();

    let (decoded, used) = DnsPacket::decode(&bytes).unwrap();
    assert_eq!(used, bytes.len());
    assert_eq!(decoded.header, packet.header);
    assert_eq!(decoded.questions.len(), 1);
    assert_eq!(decoded.questions[0].name, "22.0.168.192.in-addr.arpa");
    assert_eq!(decoded.questions[0].qtype, DnsQuestionType::Ptr);

    let mut rebuilt = DnsPacket::new(0xfeed, ip);
    rebuilt.header = decoded.header;
    rebuilt.questions = decoded.questions;
    let bytes2 = rebuilt.as_bytes().unwrap();
    assert_eq!(bytes2, bytes);
}

#[test]
fn test_truncated_rdata_is_malformed() {
    // The declared data length runs past the buffer.
    let bytes: Vec<u8> = vec![
        0x01, 0x66, 0x00, 0x00, 0x01, 0x00, 0x01, 0x00, 0x00, 0x00, 0x0a, 0x00, 0x09, 0xc0, 0xa8,
    ];
    assert_eq!(DnsAnswer::decode(&bytes, 0).unwrap_err(), FindiError::MalformedPacket);
}

#[test]
fn test_invalid_utf8_name() {
    // A label of invalid UTF-8 decodes structurally but has no string form.
    let bytes: Vec<u8> = vec![0x02, 0xff, 0xfe, 0x00, 0x00, 0x0c, 0x00, 0x01];
    assert_eq!(DnsQuestion::decode(&bytes, 0).unwrap_err(), FindiError::InvalidUtf8);
}

#[test]
fn test_unknown_record_type_formats_placeholder() {
    // Type code 0x63 is no record the library reads: it decodes
    // structurally and formats as a placeholder.
    let bytes: Vec<u8> = vec![
        0x01, 0x66, 0x00, 0x00, 0x63, 0x00, 0x01, 0x00, 0x00, 0x00, 0x0a, 0x00, 0x01, 0xaa,
    ];
    let (answer, _) = DnsAnswer::decode(&bytes, 0).unwrap();
    assert_eq!(answer.qtype, DnsQuestionType::Other(0x63));
    assert_eq!(answer.text().unwrap(), "unsupported record type");
}

#[test]
fn test_aaaa_record_text() {
    let bytes: Vec<u8> = vec![
        0x01, 0x66, 0x00, 0x00, 0x1c, 0x00, 0x01, 0x00, 0x00, 0x00, 0x0a, 0x00, 0x10, 0xfe, 0x80,
        0x00, 0x00, 0x00, 0x00, 0x00, 0x00, 0x66, 0xa5, 0xc3, 0xff, 0xfe, 0x5f, 0x21, 0x11,
    ];
    let (answer, _) = DnsAnswer::decode(&bytes, 0).unwrap();
    assert_eq!(answer.qtype, DnsQuestionType::Aaaa);
    assert_eq!(answer.text().unwrap(), "fe80::66a5:c3ff:fe5f:2111");
}

#[test]
fn test_all_zero_aaaa_text() {
    let bytes: Vec<u8> = vec![
        0x01, 0x66, 0x00, 0x00, 0x1c, 0x00, 0x01, 0x00, 0x00, 0x00, 0x0a, 0x00, 0x10, 0x00, 0x00,
        0x00, 0x00, 0x00, 0x00, 0x00, 0x00, 0x00, 0x00, 0x00, 0x00, 0x00, 0x00, 0x00, 0x00,
    ];
    let (answer, _) = DnsAnswer::decode(&bytes, 0).unwrap();
    assert_eq!(answer.text().unwrap(), "::");
}

#[test]
fn test_srv_record_text() {
    let bytes: Vec<u8> = vec![
        0x01, 0x66, 0x00, 0x00, 0x21, 0x00, 0x01, 0x00, 0x00, 0x00, 0x0a, 0x00, 0x06, 0x00, 0x00,
        0x00, 0x00, 0x13, 0x91,
    ];
    let (answer, _) = DnsAnswer::decode(&bytes, 0).unwrap();
    assert_eq!(answer.qtype, DnsQuestionType::Srv);
    assert_eq!(answer.text().unwrap(), "Priority: 0, Weight: 0, Port: 5009");
}

#[test]
fn test_txt_record_text() {
    let bytes: Vec<u8> = vec![
        0x01, 0x66, 0x00, 0x00, 0x10, 0x00, 0x01, 0x00, 0x00, 0x00, 0x0a, 0x00, 0x09, 0x08, 0x6d,
        0x6f, 0x64, 0x65, 0x6c, 0x3d, 0x41, 0x37,
    ];
    let (answer, _) = DnsAnswer::decode(&bytes, 0).unwrap();
    assert_eq!(answer.text().unwrap(), "model=A7");
}

#[test]
fn test_foreign_class_is_malformed() {
    // Only the Internet class is spoken; any other class is rejected.
    let bytes: Vec<u8> = vec![
        0x10, 0x5f, 0x73, 0x70, 0x6f, 0x74, 0x69, 0x66, 0x79, 0x2d, 0x63, 0x6f, 0x6e, 0x6e, 0x65,
        0x63, 0x74, 0x04, 0x5f, 0x74, 0x63, 0x70, 0x05, 0x6c, 0x6f, 0x63, 0x61, 0x6c, 0x00, 0x00,
        0x0c, 0x80, 0x01,
    ];
    assert_eq!(DnsQuestion::decode(&bytes, 0).unwrap_err(), FindiError::MalformedPacket);
}

#[test]
fn test_empty_nbns_block_is_malformed() {
    let bytes: Vec<u8> = vec![0x00, 0x00, 0x21, 0x00, 0x01];
    assert_eq!(NbnsAnswer::decode(&bytes, 0).unwrap_err(), FindiError::MalformedPacket);
}

#[test]
fn test_decode_whole_mdns_reply() {
    // A captured mDNS reverse-lookup reply: one question, one PTR answer
    // carrying the hostname.
    let mdns_answer_bytes: Vec<u8> = vec![
        0xfe, 0xed, 0x84, 0x00, 0x00, 0x01, 0x00, 0x01, 0x00, 0x00, 0x00, 0x00, 0x02, 0x32, 0x32,
        0x01, 0x30, 0x03, 0x31, 0x36, 0x38, 0x03, 0x31, 0x39, 0x32, 0x07, 0x69, 0x6e, 0x2d, 0x61,
        0x64, 0x64, 0x72, 0x04, 0x61, 0x72, 0x70, 0x61, 0x00, 0x00, 0x0c, 0x00, 0x01, 0xc0, 0x0c,
        0x00, 0x0c, 0x00, 0x01, 0x00, 0x00, 0x00, 0x0a, 0x00, 0x19, 0x11, 0x4e, 0x69, 0x63, 0x6b,
        0x44, 0x6f, 0x6e, 0x61, 0x6c, 0x64, 0x2d, 0x69, 0x50, 0x68, 0x6f, 0x6e, 0x65, 0x05, 0x6c,
        0x6f, 0x63, 0x61, 0x6c, 0x00,
    ];
    let (packet, _) = DnsPacket::decode(&mdns_answer_bytes).unwrap();
    assert_eq!(packet.questions[0].name, "22.0.168.192.in-addr.arpa");
    assert_eq!(packet.answers.len(), 1);
    assert_eq!(packet.answers[0].text().unwrap(), "NickDonald-iPhone.local");
}
