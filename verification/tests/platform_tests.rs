use dragon_claw_agent::addr::{dec_bytes, hex_bytes, IpAddrWithScopeId};
use dragon_claw_agent::icon::{IconProcessorError, IconTarget, IconTargetType, OutputGenerator,
    PngTargetPlacement};
use dragon_claw_agent::name::{service_instance_name, ComputerName, ComputerNameError};
use dragon_claw_agent::power::PowerAction;
use dragon_claw_agent::rpc::{
    plan_power_action_request, plan_supported_actions_response, RpcPowerOutcome,
};
use dragon_claw_agent::PlatformAbstraction;

#[test]
fn decimal_and_hex_renderings_are_exact() {
    assert_eq!(dec_bytes(0), b"0".to_vec());
    assert_eq!(dec_bytes(37121), b"37121".to_vec());
    assert_eq!(dec_bytes(255), b"255".to_vec());
    assert_eq!(hex_bytes(0), b"0".to_vec());
    assert_eq!(hex_bytes(0xfe80), b"fe80".to_vec());
    assert_eq!(hex_bytes(0x00c), b"c".to_vec());
}

#[test]
fn address_text_forms_are_exact() {
    let four = IpAddrWithScopeId::V4 { octets: [192, 168, 1, 5] };
    assert_eq!(four.addr_text(), b"192.168.1.5".to_vec());
    assert_eq!(four.endpoint_text(37121), b"192.168.1.5:37121".to_vec());
    let six = IpAddrWithScopeId::V6 { segments: [0xff05, 0, 0, 0, 0, 0, 0, 0xc], scope_id: 0 };
    assert_eq!(six.addr_text(), b"ff05:0:0:0:0:0:0:c".to_vec());
    assert_eq!(six.endpoint_text(1900), b"[ff05:0:0:0:0:0:0:c]:1900".to_vec());
}

#[test]
fn loopback_detection_covers_both_families() {
    assert!(IpAddrWithScopeId::V4 { octets: [127, 0, 0, 1] }.is_loopback());
    assert!(!IpAddrWithScopeId::V4 { octets: [10, 0, 0, 1] }.is_loopback());
    assert!(
        IpAddrWithScopeId::V6 { segments: [0, 0, 0, 0, 0, 0, 0, 1], scope_id: 0 }.is_loopback()
    );
    assert!(
        !IpAddrWithScopeId::V6 { segments: [0xfe80, 0, 0, 0, 0, 0, 0, 1], scope_id: 0 }
            .is_loopback()
    );
}

#[test]
fn computer_name_decodes_its_wide_units() {
    let name = ComputerName::new(vec![0x44, 0x43]);
    assert_eq!(name.dns_host_name_to_string(), Ok("DC".to_string()));
    assert_eq!(name.into_dns_host_name(), vec![0x44, 0x43]);
}

#[test]
fn invalid_wide_units_are_reported() {
    let name = ComputerName::new(vec![0xD800]);
    assert_eq!(
        name.dns_host_name_to_string(),
        Err(ComputerNameError::InvalidUtf16)
    );
}

#[test]
fn registration_names_append_the_fixed_suffixes() {
    let name = ComputerName::new(vec![0x44, 0x43]);
    let mdns: Vec<u16> = "DC.local\0".encode_utf16().collect();
    assert_eq!(name.mdns_host_name(), mdns);

    let instance: Vec<u16> = "DC._dragon-claw._tcp.local\0".encode_utf16().collect();
    assert_eq!(service_instance_name(&vec![0x44, 0x43]), instance);
}

#[test]
fn rpc_decisions_follow_capability_presence() {
    assert_eq!(
        plan_power_action_request(false, Some(PowerAction::Reboot)),
        RpcPowerOutcome::Unimplemented
    );
    assert_eq!(plan_power_action_request(true, None), RpcPowerOutcome::InvalidArgument);
    assert_eq!(
        plan_power_action_request(true, Some(PowerAction::Reboot)),
        RpcPowerOutcome::Proceed(PowerAction::Reboot)
    );
    assert_eq!(
        plan_supported_actions_response(false, vec![PowerAction::Reboot]),
        Vec::<PowerAction>::new()
    );
    assert_eq!(
        plan_supported_actions_response(true, vec![PowerAction::Reboot]),
        vec![PowerAction::Reboot]
    );
}

#[test]
fn platform_abstraction_reports_capabilities() {
    let with_power = PlatformAbstraction::new(true);
    assert!(with_power.power_manager().is_some());
    assert!(with_power.discovery_manager().mdns_slot.is_none());

    let without_power = PlatformAbstraction::new(false);
    assert!(without_power.power_manager().is_none());
}

#[test]
fn output_generator_plans_paths_and_refuses_duplicates() {
    let target = IconTarget {
        name: "windows-icon".to_string(),
        target_type: IconTargetType::Other,
    };
    let mut generator = OutputGenerator::new(&"build".to_string(), &target);
    let path = generator.register_output("icon".to_string(), "icon.png").unwrap();
    assert_eq!(path, "build/windows-icon/icon.png".to_string());
    assert_eq!(
        generator.register_output("icon".to_string(), "other.png"),
        Err(IconProcessorError::DuplicatedOutput)
    );
    let outputs = generator.finalize();
    assert_eq!(
        outputs.get_output(&"icon".to_string()),
        Ok("build/windows-icon/icon.png".to_string())
    );
    assert_eq!(
        outputs.get_output(&"missing".to_string()),
        Err(IconProcessorError::OutputNotFound)
    );
}

#[test]
fn placement_falls_back_to_the_image_size() {
    let fixed = PngTargetPlacement { x: 0, y: 0, width: Some(16), height: None };
    assert_eq!(fixed.render_size(64, 48), (16, 48));
    let free = PngTargetPlacement { x: 1, y: 2, width: None, height: None };
    assert_eq!(free.render_size(64, 48), (64, 48));
}

#[test]
fn target_lookup_finds_the_first_match() {
    let meta = dragon_claw_agent::icon::IconMetadata {
        file: "icon.svg".to_string(),
        targets: vec![
            IconTarget { name: "wix-installer-banner".to_string(), target_type: IconTargetType::Other },
            IconTarget { name: "windows-icon".to_string(), target_type: IconTargetType::Other },
        ],
        variables: vec![],
    };
    let found = meta.find_target(&"windows-icon".to_string()).unwrap();
    assert_eq!(found.name, "windows-icon".to_string());
    assert_eq!(
        meta.find_target(&"missing".to_string()).err(),
        Some(IconProcessorError::TargetNotFound)
    );
}
