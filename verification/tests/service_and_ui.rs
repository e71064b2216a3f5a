// Service browsing values and the front end's plain state values.

use findi::config::AppConfig;
use findi::dns::query::DnsQuestion;
use findi::service::{build_service_query_packet, Service};
use findi::ui::{
    Modal, ModalOpt, ModalType, Notification, NotificationLevel, PageContent, SearchFilterOption,
};

#[test]
pub fn test_service_question_into() {
    let svc = Service::new("Test service", "_test-service.sub");
    let q: DnsQuestion = svc.to_question();
    assert_eq!(q.name, "_test-service.sub._tcp.local");
}

#[test]
pub fn service_test_service_question_into() {
    let svc = Service::new("Test service", "_test-service.sub");
    let q: DnsQuestion = svc.to_question();
    assert_eq!(q.name, "_test-service.sub._tcp.local");
}

#[test]
pub fn test_build_service_query_packet() {
    // Encoded _ipp-tls._tcp.local
    let addr_bts: [u8; 25] = [
        0x08, 0x5f, 0x69, 0x70, 0x70, 0x2d, 0x74, 0x6c, 0x73, 0x04, 0x5f, 0x74, 0x63, 0x70, 0x05,
        0x6c, 0x6f, 0x63, 0x61, 0x6c, 0x00, 0x00, 0x0c, 0x00, 0x01,
    ];
    let svcs = vec![Service::new("Test svc", "_ipp-tls")];
    let mut packet = build_service_query_packet(&svcs);
    let bts = packet.as_bytes().unwrap();

    // Num questions
    assert_eq!(bts[5], 1);
    assert_eq!(bts[12..37], addr_bts);
}

#[test]
pub fn service_test_build_service_query_packet() {
    let addr_bts: [u8; 25] = [
        0x08, 0x5f, 0x69, 0x70, 0x70, 0x2d, 0x74, 0x6c, 0x73, 0x04, 0x5f, 0x74, 0x63, 0x70, 0x05,
        0x6c, 0x6f, 0x63, 0x61, 0x6c, 0x00, 0x00, 0x0c, 0x00, 0x01,
    ];
    let svcs = vec![Service::new("Test svc", "_ipp-tls")];
    let mut packet = build_service_query_packet(&svcs);
    let bts = packet.as_bytes().unwrap();

    assert_eq!(bts[5], 1);
    assert_eq!(bts[12..37], addr_bts);
}

#[test]
fn test_modal_new_and_toggle() {
    let m = Modal::new("Test modal", "This is a test", ModalType::YesNo);
    assert_eq!(m.title, "Test modal");
    assert_eq!(m.message, "This is a test");
    assert_eq!(m.selected, ModalOpt::Yes);

    assert_eq!(ModalOpt::Yes.toggle(), ModalOpt::No);
    assert_eq!(ModalOpt::No.toggle(), ModalOpt::Yes);

    let mut opt = ModalOpt::Yes;
    opt.mut_toggle();
    assert_eq!(opt, ModalOpt::No);
    opt.mut_toggle();
    assert_eq!(opt, ModalOpt::Yes);
}

#[test]
fn test_notification_constructors() {
    let n = Notification::info("Status", "Querying 4 hosts...");
    assert_eq!(n.title, "Status");
    assert_eq!(n.message, "Querying 4 hosts...");
    assert!(matches!(n.level, NotificationLevel::Info));

    let w = Notification::new("Status", "something odd", NotificationLevel::Warn);
    assert!(matches!(w.level, NotificationLevel::Warn));

    let d: Notification = Default::default();
    assert_eq!(d.title, "Status");
    assert_eq!(d.message, "");
}

#[test]
fn test_ui_defaults() {
    assert_eq!(<PageContent as Default>::default(), PageContent::HostTable);
    assert_eq!(<SearchFilterOption as Default>::default(), SearchFilterOption::ShowAll);
    let c: AppConfig = Default::default();
    assert_eq!(c.nworkers, 100);
    assert_eq!(c.tick_len, 100);
}

#[test]
fn test_address_text() {
    let ip = findi::addr::Ipv4Addr::new(192, 168, 0, 21);
    assert_eq!(ip.text(), "192.168.0.21");
    assert_eq!(ip.octets(), [192, 168, 0, 21]);
}
