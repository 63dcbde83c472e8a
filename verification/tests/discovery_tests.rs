use dragon_claw_agent::addr::IpAddrWithScopeId;
use dragon_claw_agent::discovery::{
    advertise_outcome, avahi_add_service_args, bus_error_kind, choose_host_name,
    dns_completion_outcome, dns_submit_accepted, stop_outcome, DiscoveryError, DiscoveryServer,
    DiscoveryState, ServiceEndpoint,
};
use dragon_claw_agent::{PlatformAbstractionError, PlatformError};

fn endpoint(name: &str, last_octet: u8, port: u16) -> ServiceEndpoint {
    ServiceEndpoint {
        name: name.to_string(),
        addr: IpAddrWithScopeId::V4 { octets: [10, 0, 0, last_octet] },
        port,
    }
}

#[test]
fn stop_after_advertise_empties_the_slots_and_succeeds() {
    let mut state = DiscoveryState::new();
    assert!(state.begin_mdns_advertise().is_none());
    state.complete_mdns_advertise(endpoint("host", 1, 37121));
    assert!(state.begin_ssdp_advertise().is_none());
    state.complete_ssdp_advertise(endpoint("host", 1, 37121));

    let (dns, ssdp) = state.begin_stop();
    assert_eq!(dns.map(|e| e.port), Some(37121));
    assert_eq!(ssdp.map(|e| e.port), Some(37121));
    assert!(state.mdns_slot.is_none());
    assert!(state.ssdp_slot.is_none());
    assert_eq!(stop_outcome(None), Ok(()));
}

#[test]
fn stop_is_idempotent_on_an_empty_manager() {
    let mut state = DiscoveryState::new();
    let (dns, ssdp) = state.begin_stop();
    assert!(dns.is_none());
    assert!(ssdp.is_none());
    let (dns2, ssdp2) = state.begin_stop();
    assert!(dns2.is_none());
    assert!(ssdp2.is_none());
}

#[test]
fn second_advertise_deregisters_the_first_before_registering() {
    let mut state = DiscoveryState::new();
    assert!(state.begin_mdns_advertise().is_none());
    state.complete_mdns_advertise(endpoint("a", 1, 1000));

    let deregistered = state.begin_mdns_advertise();
    assert_eq!(deregistered.map(|e| e.port), Some(1000));
    assert!(state.mdns_slot.is_none());
    state.complete_mdns_advertise(endpoint("b", 2, 2000));

    let (dns, _) = state.begin_stop();
    assert_eq!(dns.map(|e| e.port), Some(2000));
}

#[test]
fn advertisement_success_is_disjunctive() {
    assert_eq!(advertise_outcome(true, true), Ok(()));
    assert_eq!(advertise_outcome(true, false), Ok(()));
    assert_eq!(advertise_outcome(false, true), Ok(()));
    assert_eq!(
        advertise_outcome(false, false),
        Err(PlatformAbstractionError::Unsupported)
    );
}

#[test]
fn stop_returns_the_first_error_encountered() {
    assert_eq!(
        stop_outcome(Some(PlatformError::BusTimeout)),
        Err(PlatformAbstractionError::Platform(PlatformError::BusTimeout))
    );
}

#[test]
fn bus_errors_distinguish_timeouts() {
    assert_eq!(bus_error_kind(true), PlatformError::BusTimeout);
    assert_eq!(bus_error_kind(false), PlatformError::Bus);
}

#[test]
fn avahi_registration_covers_all_interfaces_with_the_endpoint_family() {
    let args = avahi_add_service_args(&endpoint("host", 1, 37121));
    assert_eq!(args.interface, -1);
    assert_eq!(args.protocol, 0);
    assert_eq!(args.flags, 0);
    assert_eq!(args.service_type, "_dragon-claw._tcp".to_string());
    assert_eq!(args.port, 37121);

    let six = ServiceEndpoint {
        name: "host".to_string(),
        addr: IpAddrWithScopeId::V6 { segments: [0xfe80, 0, 0, 0, 0, 0, 0, 1], scope_id: 2 },
        port: 37121,
    };
    assert_eq!(avahi_add_service_args(&six).protocol, 1);
}

#[test]
fn discovery_server_start_needs_every_call_to_succeed() {
    let ok = DiscoveryServer::start(true, true, true, Some("host".to_string()), true, true, 37121);
    let server = ok.unwrap();
    assert_eq!(server.host_name, "host".to_string());
    assert_eq!(server.port, 37121);

    assert!(matches!(
        DiscoveryServer::start(false, true, true, None, true, true, 37121),
        Err(DiscoveryError::Unavailable)
    ));
    assert!(matches!(
        DiscoveryServer::start(true, true, true, None, false, true, 37121),
        Err(DiscoveryError::Unavailable)
    ));
}

#[test]
fn missing_host_name_falls_back_to_the_fixed_name() {
    let server = DiscoveryServer::start(true, true, true, None, true, true, 1).unwrap();
    assert_eq!(server.host_name, "Dragon Claw Computer".to_string());
}

#[test]
fn host_name_choice_prefers_the_naming_service() {
    assert_eq!(
        choose_host_name(Some("avahi-name".to_string()), Some("kernel-name".to_string())),
        "avahi-name".to_string()
    );
    assert_eq!(
        choose_host_name(None, Some("kernel-name".to_string())),
        "kernel-name".to_string()
    );
    assert_eq!(choose_host_name(None, None), "Dragon Claw Computer".to_string());
}

#[test]
fn dns_submit_accepts_only_the_pending_sentinel() {
    assert!(dns_submit_accepted(9506));
    assert!(!dns_submit_accepted(0));
    assert!(!dns_submit_accepted(5));
}

#[test]
fn dns_completion_surfaces_the_callback_status() {
    assert_eq!(dns_completion_outcome(0), Ok(()));
    assert_eq!(
        dns_completion_outcome(1460),
        Err(PlatformError::Win32(1460))
    );
}
