use dragon_claw_agent::addr::{partition_addresses, IpAddrWithScopeId};
use dragon_claw_agent::codec::encode_message;
use dragon_claw_agent::ssdp::{
    build_ssdp_message, is_matching_search, receive_step, select_announce_addresses,
    service_type_bytes, ssdp_setup_outcome, AgentVersion, NotificationSubtype, SsdpSender,
    SsdpSession,
};
use dragon_claw_agent::{IoErrorKind, PlatformAbstractionError};

fn v4(a: u8, b: u8, c: u8, d: u8) -> IpAddrWithScopeId {
    IpAddrWithScopeId::V4 { octets: [a, b, c, d] }
}

fn version() -> AgentVersion {
    AgentVersion { major: 0, minor: 1, patch: 0 }
}

fn wire_text(addr: &IpAddrWithScopeId, port: u16, nts: NotificationSubtype) -> String {
    let m = build_ssdp_message(addr, port, nts, &version());
    String::from_utf8(encode_message(&m)).unwrap()
}

#[test]
fn alive_notify_carries_the_specified_headers() {
    let text = wire_text(&v4(192, 168, 1, 5), 37121, NotificationSubtype::Alive);
    assert!(text.starts_with("NOTIFY * HTTP/1.1\r\n"));
    assert!(text.contains("HOST: 239.255.255.250:1900\r\n"));
    assert!(text.contains("NT: urn:dragon-claw:service:DragonClawAgent:1\r\n"));
    assert!(text.contains("USER-AGENT: DragonClaw/0.1.0\r\n"));
    assert!(text.contains("NTS: ssdp:alive\r\n"));
    assert!(text.contains("CACHE-CONTROL: max-age=30\r\n"));
    assert!(text.contains("LOCATION: tcp://192.168.1.5:37121\r\n"));
    assert!(text.contains("MAN: \"ssdp:discover\"\r\n"));
    assert!(text.ends_with("\r\n\r\n"));
}

#[test]
fn ipv6_notify_uses_the_v6_group_and_bracketed_location() {
    let addr = IpAddrWithScopeId::V6 { segments: [0xfe80, 0, 0, 0, 0, 0, 0, 1], scope_id: 3 };
    let text = wire_text(&addr, 37121, NotificationSubtype::ByeBye);
    assert!(text.contains("HOST: [ff05::c]:1900\r\n"));
    assert!(text.contains("LOCATION: tcp://[fe80:0:0:0:0:0:0:1]:37121\r\n"));
    assert!(text.contains("NTS: ssdp:byebye\r\n"));
}

#[test]
fn matching_search_is_recognised() {
    let mut buffer = b"M-SEARCH * HTTP/1.1\r\nST: urn:dragon-claw:service:DragonClawAgent:1\r\n\r\n"
        .to_vec();
    let outcome = receive_step(&mut buffer);
    assert_eq!(outcome.messages.len(), 1);
    assert!(is_matching_search(&outcome.messages[0]));
    assert!(outcome.notify);
    assert!(!outcome.cleared);
    assert!(buffer.is_empty());
}

#[test]
fn search_for_another_service_is_ignored() {
    let mut buffer = b"M-SEARCH * HTTP/1.1\r\nST: urn:other:service:Else:1\r\n\r\n".to_vec();
    let outcome = receive_step(&mut buffer);
    assert_eq!(outcome.messages.len(), 1);
    assert!(!outcome.notify);
}

#[test]
fn notify_with_matching_st_is_not_a_search() {
    let mut buffer = b"NOTIFY * HTTP/1.1\r\nST: urn:dragon-claw:service:DragonClawAgent:1\r\n\r\n"
        .to_vec();
    let outcome = receive_step(&mut buffer);
    assert!(!outcome.notify);
}

#[test]
fn oversized_buffer_without_blank_line_is_cleared() {
    let mut buffer = vec![b'x'; 5 * 1024];
    let outcome = receive_step(&mut buffer);
    assert!(outcome.messages.is_empty());
    assert!(outcome.cleared);
    assert!(!outcome.notify);
    assert!(buffer.is_empty());
}

#[test]
fn small_undecodable_buffer_is_kept() {
    let mut buffer = b"partial".to_vec();
    let outcome = receive_step(&mut buffer);
    assert!(!outcome.cleared);
    assert_eq!(buffer, b"partial".to_vec());
}

#[test]
fn sender_sends_alive_until_shutdown_then_one_byebye() {
    let mut sender = SsdpSender::new(v4(10, 0, 0, 2), 37121);
    let alive = sender.on_wake(false, &version());
    assert!(!sender.finished);
    assert_eq!(sender.byebyes_sent, 0);
    let alive_text = String::from_utf8(encode_message(&alive)).unwrap();
    assert!(alive_text.contains("NTS: ssdp:alive\r\n"));
    let bye = sender.on_wake(true, &version());
    assert!(sender.finished);
    assert_eq!(sender.byebyes_sent, 1);
    let bye_text = String::from_utf8(encode_message(&bye)).unwrap();
    assert!(bye_text.contains("NTS: ssdp:byebye\r\n"));
    assert!(bye_text.contains("LOCATION: tcp://10.0.0.2:37121\r\n"));
}

#[test]
fn setup_without_receivers_is_address_not_available() {
    assert_eq!(
        ssdp_setup_outcome(0),
        Err(PlatformAbstractionError::Io(IoErrorKind::AddressNotAvailable))
    );
    assert_eq!(ssdp_setup_outcome(2), Ok(()));
}

#[test]
fn loopback_only_hosts_have_no_announce_family() {
    let locals = vec![
        v4(127, 0, 0, 1),
        IpAddrWithScopeId::V6 { segments: [0, 0, 0, 0, 0, 0, 0, 1], scope_id: 0 },
    ];
    let (four, six) = partition_addresses(&locals);
    assert!(four.is_empty());
    assert!(six.is_empty());
}

#[test]
fn partition_splits_families_and_drops_loopback() {
    let locals = vec![
        v4(127, 0, 0, 1),
        v4(10, 0, 0, 7),
        IpAddrWithScopeId::V6 { segments: [0xfe80, 0, 0, 0, 0, 0, 0, 9], scope_id: 2 },
        v4(192, 168, 0, 3),
    ];
    let (four, six) = partition_addresses(&locals);
    assert_eq!(four, vec![v4(10, 0, 0, 7), v4(192, 168, 0, 3)]);
    assert_eq!(
        six,
        vec![IpAddrWithScopeId::V6 { segments: [0xfe80, 0, 0, 0, 0, 0, 0, 9], scope_id: 2 }]
    );
}

#[test]
fn specific_bind_address_is_announced_verbatim() {
    let locals = vec![v4(10, 0, 0, 7), v4(192, 168, 0, 3)];
    let specific = select_announce_addresses(false, v4(10, 0, 0, 9), locals.clone());
    assert_eq!(specific, vec![v4(10, 0, 0, 9)]);
    let all = select_announce_addresses(true, v4(10, 0, 0, 9), locals.clone());
    assert_eq!(all, locals);
}

#[test]
fn service_type_is_the_fixed_urn() {
    assert_eq!(
        service_type_bytes(),
        b"urn:dragon-claw:service:DragonClawAgent:1".to_vec()
    );
}

#[test]
fn session_stop_retracts_once_per_active_sender() {
    let addrs = vec![v4(10, 0, 0, 1), v4(10, 0, 0, 2)];
    let mut session = SsdpSession::create(&addrs, 37121);
    assert!(!session.shutdown);
    assert_eq!(session.senders.len(), 2);
    session.request_stop();
    for sender in session.senders.iter_mut() {
        let message = sender.on_wake(true, &version());
        let text = String::from_utf8(encode_message(&message)).unwrap();
        assert!(text.contains("NTS: ssdp:byebye\r\n"));
    }
    for sender in &session.senders {
        assert!(sender.finished);
        assert_eq!(sender.byebyes_sent, 1);
    }
}
