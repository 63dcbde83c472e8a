use dragon_claw_agent::power::{
    next_os_indications, FirmwareInfo, FirmwareKind, LinuxPowerManager, Login1Call, Login1Probes,
    LinuxPowerPlan, PowerAction, PowerManager, WindowsPowerCommand, WindowsPowerManager,
};
use dragon_claw_agent::PlatformAbstractionError;

fn probes(
    power_off: &str,
    reboot: &str,
    suspend: &str,
    hibernate: &str,
    hybrid: &str,
    firmware: &str,
) -> Login1Probes {
    Login1Probes {
        can_power_off: power_off.to_string(),
        can_reboot: reboot.to_string(),
        can_suspend: suspend.to_string(),
        can_hibernate: hibernate.to_string(),
        can_hybrid_sleep: hybrid.to_string(),
        can_reboot_to_firmware_setup: firmware.to_string(),
    }
}

#[test]
fn linux_supported_lists_only_yes_answers_in_probe_order() {
    let manager = LinuxPowerManager::new();
    let all = probes("yes", "yes", "yes", "yes", "yes", "yes");
    assert_eq!(
        manager.get_supported_power_actions(&all),
        vec![
            PowerAction::PowerOff,
            PowerAction::Reboot,
            PowerAction::Suspend,
            PowerAction::Hibernate,
            PowerAction::HybridSuspend,
            PowerAction::RebootToFirmware,
        ]
    );
    let some = probes("no", "yes", "na", "yes", "no", "no");
    assert_eq!(
        manager.get_supported_power_actions(&some),
        vec![PowerAction::Reboot, PowerAction::Hibernate]
    );
}

#[test]
fn challenge_answer_denies_the_action_everywhere() {
    let manager = LinuxPowerManager::new();
    let p = probes("challenge", "yes", "yes", "yes", "yes", "yes");
    let supported = manager.get_supported_power_actions(&p);
    assert!(!supported.contains(&PowerAction::PowerOff));
    assert_eq!(
        manager.perform_power_action(&p, PowerAction::PowerOff),
        Err(PlatformAbstractionError::Unsupported)
    );
    assert!(manager.perform_power_action(&p, PowerAction::Reboot).is_ok());
}

#[test]
fn linux_plans_map_each_action_to_its_login1_call() {
    let manager = LinuxPowerManager::new();
    assert_eq!(
        manager.plan_power_action(PowerAction::PowerOff),
        Ok(LinuxPowerPlan { set_firmware_setup: false, call: Login1Call::PowerOff })
    );
    assert_eq!(
        manager.plan_power_action(PowerAction::HybridSuspend),
        Ok(LinuxPowerPlan { set_firmware_setup: false, call: Login1Call::HybridSleep })
    );
    assert_eq!(
        manager.plan_power_action(PowerAction::RebootToFirmware),
        Ok(LinuxPowerPlan { set_firmware_setup: true, call: Login1Call::Reboot })
    );
    assert_eq!(
        manager.plan_power_action(PowerAction::Lock),
        Err(PlatformAbstractionError::Unsupported)
    );
    assert_eq!(
        manager.plan_power_action(PowerAction::LogOut),
        Err(PlatformAbstractionError::Unsupported)
    );
}

#[test]
fn windows_supported_needs_the_shutdown_privilege() {
    let without = WindowsPowerManager::new(false, true);
    let fw = FirmwareInfo { kind: Some(FirmwareKind::Uefi), os_indications_supported: Some(1) };
    assert!(without.get_supported_power_actions(&fw).is_empty());

    let with = WindowsPowerManager::new(true, true);
    assert_eq!(
        with.get_supported_power_actions(&fw),
        vec![
            PowerAction::PowerOff,
            PowerAction::Reboot,
            PowerAction::Suspend,
            PowerAction::Hibernate,
            PowerAction::RebootToFirmware,
        ]
    );
}

#[test]
fn firmware_reboot_needs_privilege_uefi_and_the_indication_bit() {
    let manager = WindowsPowerManager::new(true, true);
    let good = FirmwareInfo { kind: Some(FirmwareKind::Uefi), os_indications_supported: Some(3) };
    assert!(manager.can_reboot_to_firmware(&good));
    let bios = FirmwareInfo { kind: Some(FirmwareKind::Bios), os_indications_supported: Some(3) };
    assert!(!manager.can_reboot_to_firmware(&bios));
    let no_bit = FirmwareInfo { kind: Some(FirmwareKind::Uefi), os_indications_supported: Some(2) };
    assert!(!manager.can_reboot_to_firmware(&no_bit));
    let unread =
        FirmwareInfo { kind: Some(FirmwareKind::Uefi), os_indications_supported: None };
    assert!(!manager.can_reboot_to_firmware(&unread));
    let unprivileged = WindowsPowerManager::new(true, false);
    assert!(!unprivileged.can_reboot_to_firmware(&good));
}

#[test]
fn windows_plans_map_each_action_to_its_command() {
    let manager = WindowsPowerManager::new(true, true);
    assert_eq!(
        manager.plan_power_action(PowerAction::PowerOff),
        Ok(WindowsPowerCommand::Shutdown { reboot: false })
    );
    assert_eq!(
        manager.plan_power_action(PowerAction::Reboot),
        Ok(WindowsPowerCommand::Shutdown { reboot: true })
    );
    assert_eq!(
        manager.plan_power_action(PowerAction::Suspend),
        Ok(WindowsPowerCommand::Suspend { hibernate: false })
    );
    assert_eq!(
        manager.plan_power_action(PowerAction::Hibernate),
        Ok(WindowsPowerCommand::Suspend { hibernate: true })
    );
    assert_eq!(
        manager.plan_power_action(PowerAction::RebootToFirmware),
        Ok(WindowsPowerCommand::SetFirmwareBootThenReboot)
    );
    assert_eq!(
        manager.plan_power_action(PowerAction::HybridSuspend),
        Err(PlatformAbstractionError::Unsupported)
    );
}

#[test]
fn os_indications_update_raises_the_boot_bit() {
    assert_eq!(next_os_indications(None), (1, 7));
    assert_eq!(next_os_indications(Some((8, 7))), (9, 7));
    assert_eq!(next_os_indications(Some((1, 6))), (1, 6));
}
