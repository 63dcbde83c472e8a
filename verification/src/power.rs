//! Power-control rules: which power actions the host currently supports and
//! what performing one of them amounts to.
//!
//! The probing itself (message-bus calls on Linux, privilege and firmware
//! queries on Windows) happens outside the crate; the functions here take the
//! probe answers as values and make every decision the agent bases on them.

use vstd::prelude::*;

use crate::PlatformAbstractionError;

verus! {

/// A power-control operation that a client may request.
#[derive(Debug, Clone, Copy, PartialEq, Eq, Structural)]
pub enum PowerAction {
    /// Power the system off.
    PowerOff,
    /// Reboot the system.
    Reboot,
    /// Reboot the system into the firmware setup.
    RebootToFirmware,
    /// Lock the screen.
    Lock,
    /// Log out the current user.
    LogOut,
    /// Suspend the system.
    Suspend,
    /// Hibernate the system.
    Hibernate,
    /// Hybrid-suspend the system.
    HybridSuspend,
}

/// The answers of the six login1 capability probes, verbatim as the bus
/// returned them. A capability counts as available only when the probe
/// answered exactly `"yes"`; `"no"`, `"na"` and `"challenge"` all deny it.
pub struct Login1Probes {
    pub can_power_off: String,
    pub can_reboot: String,
    pub can_suspend: String,
    pub can_hibernate: String,
    pub can_hybrid_sleep: String,
    pub can_reboot_to_firmware_setup: String,
}

/// A probe answer grants the capability exactly when it is `"yes"`.
pub open spec fn probe_grants(answer: Seq<char>) -> bool {
    answer == "yes"@
}

/// The list of actions the Linux power manager reports for the given probe
/// answers, in the order they are probed.
pub open spec fn spec_linux_supported_actions(p: &Login1Probes) -> Seq<PowerAction> {
    (if probe_grants(p.can_power_off@) {
        seq![PowerAction::PowerOff]
    } else {
        Seq::empty()
    }) + (if probe_grants(p.can_reboot@) {
        seq![PowerAction::Reboot]
    } else {
        Seq::empty()
    }) + (if probe_grants(p.can_suspend@) {
        seq![PowerAction::Suspend]
    } else {
        Seq::empty()
    }) + (if probe_grants(p.can_hibernate@) {
        seq![PowerAction::Hibernate]
    } else {
        Seq::empty()
    }) + (if probe_grants(p.can_hybrid_sleep@) {
        seq![PowerAction::HybridSuspend]
    } else {
        Seq::empty()
    }) + (if probe_grants(p.can_reboot_to_firmware_setup@) {
        seq![PowerAction::RebootToFirmware]
    } else {
        Seq::empty()
    })
}

/// Returns whether a login1 probe answer grants the capability.
pub fn probe_allows(answer: &String) -> (r: bool)
    ensures
        r == probe_grants(answer@),
{
    let yes: String = String::from_str("yes");
    *answer == yes
}

/// The one call to the login1 manager that performs a power action.
#[derive(Debug, Clone, Copy, PartialEq, Eq, Structural)]
pub enum Login1Call {
    PowerOff,
    Reboot,
    Suspend,
    Hibernate,
    HybridSleep,
}

/// What performing a power action on Linux amounts to: first tell login1
/// whether the next boot should enter firmware setup, then schedule one call.
#[derive(Debug, Clone, Copy, PartialEq, Eq, Structural)]
pub struct LinuxPowerPlan {
    /// The argument of the preceding `SetRebootToFirmwareSetup` call.
    pub set_firmware_setup: bool,
    /// The login1 call to schedule after the delay.
    pub call: Login1Call,
}

/// A power manager: reports which actions the host currently permits and
/// decides what performing one amounts to. Probing data is gathered by the
/// caller on every query and never cached.
pub trait PowerManager {
    /// What a capability probe of this platform yields.
    type ProbeData;

    /// What performing an action amounts to on this platform.
    type Plan;

    /// The actions the manager reports for the given probe data.
    spec fn spec_supported_actions(&self, probes: &Self::ProbeData) -> Seq<PowerAction>;

    /// The plan performing an action amounts to.
    spec fn spec_power_plan(&self, action: PowerAction) -> Result<
        Self::Plan,
        PlatformAbstractionError,
    >;

    /// The actions to report as supported for the given probe data.
    fn get_supported_power_actions(&self, probes: &Self::ProbeData) -> (r: Vec<PowerAction>)
        ensures
            r@ == self.spec_supported_actions(probes),
    ;

    /// Decides what performing `action` does.
    fn plan_power_action(&self, action: PowerAction) -> (r: Result<
        Self::Plan,
        PlatformAbstractionError,
    >)
        ensures
            r == self.spec_power_plan(action),
    ;
}

/// The Linux power manager: decides over login1 probe answers.
pub struct LinuxPowerManager {
}

impl LinuxPowerManager {
    /// Creates the manager. The connection to login1 is held by the caller;
    /// the manager itself only decides.
    pub fn new() -> (r: Self) {
        LinuxPowerManager {  }
    }

    /// Decides a perform request against fresh probe answers: an action
    /// whose probe does not answer yes is rejected as unsupported, so a
    /// capability the session manager only grants after a challenge is
    /// never carried out.
    pub fn perform_power_action(&self, probes: &Login1Probes, action: PowerAction) -> (r: Result<
        LinuxPowerPlan,
        PlatformAbstractionError,
    >)
        ensures
            r == spec_linux_perform(probes, action),
    {
        let granted = match action {
            PowerAction::PowerOff => probe_allows(&probes.can_power_off),
            PowerAction::Reboot => probe_allows(&probes.can_reboot),
            PowerAction::Suspend => probe_allows(&probes.can_suspend),
            PowerAction::Hibernate => probe_allows(&probes.can_hibernate),
            PowerAction::HybridSuspend => probe_allows(&probes.can_hybrid_sleep),
            PowerAction::RebootToFirmware => probe_allows(&probes.can_reboot_to_firmware_setup),
            PowerAction::Lock => false,
            PowerAction::LogOut => false,
        };
        if !granted {
            return Err(PlatformAbstractionError::Unsupported);
        }
        self.plan_power_action(action)
    }
}

impl PowerManager for LinuxPowerManager {
    type ProbeData = Login1Probes;

    type Plan = LinuxPowerPlan;

    open spec fn spec_supported_actions(&self, probes: &Login1Probes) -> Seq<PowerAction> {
        spec_linux_supported_actions(probes)
    }

    open spec fn spec_power_plan(&self, action: PowerAction) -> Result<
        LinuxPowerPlan,
        PlatformAbstractionError,
    > {
        spec_linux_power_plan(action)
    }

    /// The actions to report as supported for the given probe answers.
    fn get_supported_power_actions(&self, probes: &Login1Probes) -> (r: Vec<PowerAction>)
    {
        let mut actions: Vec<PowerAction> = Vec::new();
        if probe_allows(&probes.can_power_off) {
            actions.push(PowerAction::PowerOff);
        }
        if probe_allows(&probes.can_reboot) {
            actions.push(PowerAction::Reboot);
        }
        if probe_allows(&probes.can_suspend) {
            actions.push(PowerAction::Suspend);
        }
        if probe_allows(&probes.can_hibernate) {
            actions.push(PowerAction::Hibernate);
        }
        if probe_allows(&probes.can_hybrid_sleep) {
            actions.push(PowerAction::HybridSuspend);
        }
        if probe_allows(&probes.can_reboot_to_firmware_setup) {
            actions.push(PowerAction::RebootToFirmware);
        }
        proof {
            assert(actions@ =~= spec_linux_supported_actions(probes));
        }
        actions
    }

    /// Decides what performing `action` does on Linux. Lock and log-out have
    /// no login1 backend and are unsupported; every other action is carried
    /// out by one login1 call, with the firmware-setup flag raised exactly
    /// for a reboot into firmware setup.
    fn plan_power_action(&self, action: PowerAction) -> (r: Result<
        LinuxPowerPlan,
        PlatformAbstractionError,
    >)
    {
        let set_firmware_setup = action == PowerAction::RebootToFirmware;
        let call = match action {
            PowerAction::PowerOff => Login1Call::PowerOff,
            PowerAction::Reboot => Login1Call::Reboot,
            PowerAction::Suspend => Login1Call::Suspend,
            PowerAction::Hibernate => Login1Call::Hibernate,
            PowerAction::HybridSuspend => Login1Call::HybridSleep,
            PowerAction::RebootToFirmware => Login1Call::Reboot,
            PowerAction::Lock => {
                return Err(PlatformAbstractionError::Unsupported);
            },
            PowerAction::LogOut => {
                return Err(PlatformAbstractionError::Unsupported);
            },
        };
        Ok(LinuxPowerPlan { set_firmware_setup, call })
    }
}

/// The plan `LinuxPowerManager::plan_power_action` returns for each action.
pub open spec fn spec_linux_power_plan(action: PowerAction) -> Result<
    LinuxPowerPlan,
    PlatformAbstractionError,
> {
    match action {
        PowerAction::PowerOff => Ok(
            LinuxPowerPlan { set_firmware_setup: false, call: Login1Call::PowerOff },
        ),
        PowerAction::Reboot => Ok(
            LinuxPowerPlan { set_firmware_setup: false, call: Login1Call::Reboot },
        ),
        PowerAction::Suspend => Ok(
            LinuxPowerPlan { set_firmware_setup: false, call: Login1Call::Suspend },
        ),
        PowerAction::Hibernate => Ok(
            LinuxPowerPlan { set_firmware_setup: false, call: Login1Call::Hibernate },
        ),
        PowerAction::HybridSuspend => Ok(
            LinuxPowerPlan { set_firmware_setup: false, call: Login1Call::HybridSleep },
        ),
        PowerAction::RebootToFirmware => Ok(
            LinuxPowerPlan { set_firmware_setup: true, call: Login1Call::Reboot },
        ),
        PowerAction::Lock => Err(PlatformAbstractionError::Unsupported),
        PowerAction::LogOut => Err(PlatformAbstractionError::Unsupported),
    }
}

/// Whatever the probes answered, an action the Linux manager reports as
/// supported is never one that performing would reject as unsupported.
pub proof fn lemma_linux_supported_actions_performable(probes: &Login1Probes, action: PowerAction)
    requires
        spec_linux_supported_actions(probes).contains(action),
    ensures
        spec_linux_power_plan(action) is Ok,
{
}

/// Whether the probes grant `action`: its own probe answered yes; locking
/// and logging out have no probe and are never granted.
pub open spec fn spec_linux_action_granted(p: &Login1Probes, action: PowerAction) -> bool {
    match action {
        PowerAction::PowerOff => probe_grants(p.can_power_off@),
        PowerAction::Reboot => probe_grants(p.can_reboot@),
        PowerAction::Suspend => probe_grants(p.can_suspend@),
        PowerAction::Hibernate => probe_grants(p.can_hibernate@),
        PowerAction::HybridSuspend => probe_grants(p.can_hybrid_sleep@),
        PowerAction::RebootToFirmware => probe_grants(p.can_reboot_to_firmware_setup@),
        PowerAction::Lock => false,
        PowerAction::LogOut => false,
    }
}

/// What performing `action` on Linux returns for the given probe answers:
/// the action's plan when its probe grants it, else unsupported.
pub open spec fn spec_linux_perform(p: &Login1Probes, action: PowerAction) -> Result<
    LinuxPowerPlan,
    PlatformAbstractionError,
> {
    if spec_linux_action_granted(p, action) {
        spec_linux_power_plan(action)
    } else {
        Err(PlatformAbstractionError::Unsupported)
    }
}

/// Every action the Linux manager lists as supported is one its probes
/// grant.
pub proof fn lemma_linux_supported_actions_granted(p: &Login1Probes)
    ensures
        forall|k: int|
            0 <= k < spec_linux_supported_actions(p).len() ==> spec_linux_action_granted(
                p,
                #[trigger] spec_linux_supported_actions(p)[k],
            ),
{
    let c1: Seq<PowerAction> = if probe_grants(p.can_power_off@) {
        seq![PowerAction::PowerOff]
    } else {
        Seq::empty()
    };
    let c2: Seq<PowerAction> = if probe_grants(p.can_reboot@) {
        seq![PowerAction::Reboot]
    } else {
        Seq::empty()
    };
    let c3: Seq<PowerAction> = if probe_grants(p.can_suspend@) {
        seq![PowerAction::Suspend]
    } else {
        Seq::empty()
    };
    let c4: Seq<PowerAction> = if probe_grants(p.can_hibernate@) {
        seq![PowerAction::Hibernate]
    } else {
        Seq::empty()
    };
    let c5: Seq<PowerAction> = if probe_grants(p.can_hybrid_sleep@) {
        seq![PowerAction::HybridSuspend]
    } else {
        Seq::empty()
    };
    let c6: Seq<PowerAction> = if probe_grants(p.can_reboot_to_firmware_setup@) {
        seq![PowerAction::RebootToFirmware]
    } else {
        Seq::empty()
    };
    let t1 = c1;
    let t2 = t1 + c2;
    let t3 = t2 + c3;
    let t4 = t3 + c4;
    let t5 = t4 + c5;
    let s = spec_linux_supported_actions(p);
    assert(s == t5 + c6);
    assert forall|k: int| 0 <= k < s.len() implies spec_linux_action_granted(
        p,
        #[trigger] s[k],
    ) by {
        if k < t1.len() {
            assert(s[k] == c1[k]);
        } else if k < t2.len() {
            assert(s[k] == c2[k - t1.len()]);
        } else if k < t3.len() {
            assert(s[k] == c3[k - t2.len()]);
        } else if k < t4.len() {
            assert(s[k] == c4[k - t3.len()]);
        } else if k < t5.len() {
            assert(s[k] == c5[k - t4.len()]);
        } else {
            assert(s[k] == c6[k - t5.len()]);
        }
    }
}

/// The strong form of the supported-versus-perform law: an action the Linux
/// manager reports as supported is one that performing, with the same probe
/// answers, carries out rather than rejects.
pub proof fn lemma_linux_supported_actions_perform_ok(p: &Login1Probes, action: PowerAction)
    requires
        spec_linux_supported_actions(p).contains(action),
    ensures
        spec_linux_perform(p, action) is Ok,
{
    lemma_linux_supported_actions_granted(p);
    let s = spec_linux_supported_actions(p);
    let k = choose|k: int| 0 <= k < s.len() && s[k] == action;
    assert(spec_linux_action_granted(p, s[k]));
}

/// The firmware-variable bit that asks the firmware to enter its setup UI on
/// the next boot.
pub const EFI_OS_INDICATIONS_BOOT_TO_FW_UI: u64 = 1;

/// The attribute of a firmware variable kept across reboots.
pub const EFI_VARIABLE_ATTRIBUTE_NON_VOLATILE: u32 = 1;

/// The attribute of a firmware variable readable by boot services.
pub const EFI_VARIABLE_ATTRIBUTE_BOOTSERVICE_ACCESS: u32 = 2;

/// The attribute of a firmware variable readable at runtime.
pub const EFI_VARIABLE_ATTRIBUTE_RUNTIME_ACCESS: u32 = 4;

/// The kind of firmware the host booted with.
#[derive(Debug, Clone, Copy, PartialEq, Eq, Structural)]
pub enum FirmwareKind {
    Bios,
    Uefi,
    Unknown,
}

/// What probing the firmware found: the firmware kind, if the query
/// succeeded, and the supported-indications variable, if it could be read.
#[derive(Debug, Clone, Copy, PartialEq, Eq, Structural)]
pub struct FirmwareInfo {
    pub kind: Option<FirmwareKind>,
    pub os_indications_supported: Option<u64>,
}

/// One Win32 power command.
#[derive(Debug, Clone, Copy, PartialEq, Eq, Structural)]
pub enum WindowsPowerCommand {
    /// Initiate a system shutdown; rebooting afterwards when asked to.
    Shutdown { reboot: bool },
    /// Suspend the system, to disk when hibernating.
    Suspend { hibernate: bool },
    /// Raise the boot-to-firmware bit in the firmware variable, then reboot.
    SetFirmwareBootThenReboot,
}

/// Whether a reboot into the firmware setup is possible: the process holds
/// the system-environment privilege, the firmware is UEFI, and the
/// supported-indications variable was read with the boot-to-firmware bit
/// set.
pub open spec fn spec_can_reboot_to_firmware(
    has_system_environment_privilege: bool,
    fw: FirmwareInfo,
) -> bool {
    &&& has_system_environment_privilege
    &&& fw.kind == Some(FirmwareKind::Uefi)
    &&& match fw.os_indications_supported {
        Some(v) => v & EFI_OS_INDICATIONS_BOOT_TO_FW_UI == EFI_OS_INDICATIONS_BOOT_TO_FW_UI,
        None => false,
    }
}

/// The list of actions the Windows power manager reports: with the shutdown
/// privilege, power-off, reboot, suspend and hibernate, and additionally
/// reboot-to-firmware when the firmware allows it; without it, nothing.
pub open spec fn spec_windows_supported_actions(
    has_shutdown_privilege: bool,
    can_firmware: bool,
) -> Seq<PowerAction> {
    if has_shutdown_privilege {
        (seq![
            PowerAction::PowerOff,
            PowerAction::Reboot,
            PowerAction::Suspend,
            PowerAction::Hibernate,
        ]) + (if can_firmware {
            seq![PowerAction::RebootToFirmware]
        } else {
            Seq::empty()
        })
    } else {
        Seq::empty()
    }
}

/// The command Windows performs for each action.
pub open spec fn spec_windows_power_plan(action: PowerAction) -> Result<
    WindowsPowerCommand,
    PlatformAbstractionError,
> {
    match action {
        PowerAction::PowerOff => Ok(WindowsPowerCommand::Shutdown { reboot: false }),
        PowerAction::Reboot => Ok(WindowsPowerCommand::Shutdown { reboot: true }),
        PowerAction::Suspend => Ok(WindowsPowerCommand::Suspend { hibernate: false }),
        PowerAction::Hibernate => Ok(WindowsPowerCommand::Suspend { hibernate: true }),
        PowerAction::RebootToFirmware => Ok(WindowsPowerCommand::SetFirmwareBootThenReboot),
        _ => Err(PlatformAbstractionError::Unsupported),
    }
}

/// The Windows power manager: decides over the privileges the process was
/// able to acquire and the firmware state probed on each query.
pub struct WindowsPowerManager {
    pub has_shutdown_privilege: bool,
    pub has_system_environment_privilege: bool,
}

impl WindowsPowerManager {
    /// A manager for a process that did or did not acquire the shutdown and
    /// system-environment privileges.
    pub fn new(has_shutdown_privilege: bool, has_system_environment_privilege: bool) -> (r: Self)
        ensures
            r.has_shutdown_privilege == has_shutdown_privilege,
            r.has_system_environment_privilege == has_system_environment_privilege,
    {
        WindowsPowerManager { has_shutdown_privilege, has_system_environment_privilege }
    }

    /// Whether a reboot into the firmware setup is possible for the probed
    /// firmware state.
    pub fn can_reboot_to_firmware(&self, fw: &FirmwareInfo) -> (r: bool)
        ensures
            r == spec_can_reboot_to_firmware(self.has_system_environment_privilege, *fw),
    {
        if !self.has_system_environment_privilege {
            return false;
        }
        match fw.kind {
            Some(FirmwareKind::Uefi) => {},
            _ => {
                return false;
            },
        }
        match fw.os_indications_supported {
            Some(v) => v & EFI_OS_INDICATIONS_BOOT_TO_FW_UI == EFI_OS_INDICATIONS_BOOT_TO_FW_UI,
            None => false,
        }
    }

}

impl PowerManager for WindowsPowerManager {
    type ProbeData = FirmwareInfo;

    type Plan = WindowsPowerCommand;

    open spec fn spec_supported_actions(&self, fw: &FirmwareInfo) -> Seq<PowerAction> {
        spec_windows_supported_actions(
            self.has_shutdown_privilege,
            spec_can_reboot_to_firmware(self.has_system_environment_privilege, *fw),
        )
    }

    open spec fn spec_power_plan(&self, action: PowerAction) -> Result<
        WindowsPowerCommand,
        PlatformAbstractionError,
    > {
        spec_windows_power_plan(action)
    }

    /// The actions to report as supported for the probed firmware state.
    fn get_supported_power_actions(&self, fw: &FirmwareInfo) -> (r: Vec<PowerAction>)
    {
        let mut actions: Vec<PowerAction> = Vec::new();
        if self.has_shutdown_privilege {
            actions.push(PowerAction::PowerOff);
            actions.push(PowerAction::Reboot);
            actions.push(PowerAction::Suspend);
            actions.push(PowerAction::Hibernate);
            if self.can_reboot_to_firmware(fw) {
                actions.push(PowerAction::RebootToFirmware);
            }
        }
        proof {
            assert(actions@ =~= spec_windows_supported_actions(
                self.has_shutdown_privilege,
                spec_can_reboot_to_firmware(self.has_system_environment_privilege, *fw),
            ));
        }
        actions
    }

    /// Decides what performing `action` does on Windows. Lock, log-out and
    /// hybrid-suspend have no backend there and are unsupported.
    fn plan_power_action(&self, action: PowerAction) -> (r: Result<
        WindowsPowerCommand,
        PlatformAbstractionError,
    >)
    {
        match action {
            PowerAction::PowerOff => Ok(WindowsPowerCommand::Shutdown { reboot: false }),
            PowerAction::Reboot => Ok(WindowsPowerCommand::Shutdown { reboot: true }),
            PowerAction::Suspend => Ok(WindowsPowerCommand::Suspend { hibernate: false }),
            PowerAction::Hibernate => Ok(WindowsPowerCommand::Suspend { hibernate: true }),
            PowerAction::RebootToFirmware => Ok(WindowsPowerCommand::SetFirmwareBootThenReboot),
            PowerAction::Lock => Err(PlatformAbstractionError::Unsupported),
            PowerAction::LogOut => Err(PlatformAbstractionError::Unsupported),
            PowerAction::HybridSuspend => Err(PlatformAbstractionError::Unsupported),
        }
    }
}

/// The value and attributes to write into the boot-indications firmware
/// variable: the read value, or zero when the variable does not exist yet,
/// with the boot-to-firmware bit raised; the read attributes, or, for a
/// fresh variable, non-volatile with boot-service and runtime access.
pub fn next_os_indications(read: Option<(u64, u32)>) -> (r: (u64, u32))
    ensures
        r.0 == (match read {
            Some(p) => p.0,
            None => 0u64,
        }) | EFI_OS_INDICATIONS_BOOT_TO_FW_UI,
        r.1 == (match read {
            Some(p) => p.1,
            None => 7u32,
        }),
{
    match read {
        Some((value, attributes)) => (value | EFI_OS_INDICATIONS_BOOT_TO_FW_UI, attributes),
        None => {
            proof {
                assert(1u32 | 2u32 | 4u32 == 7u32) by (bit_vector);
            }
            (
                0u64 | EFI_OS_INDICATIONS_BOOT_TO_FW_UI,
                EFI_VARIABLE_ATTRIBUTE_NON_VOLATILE | EFI_VARIABLE_ATTRIBUTE_BOOTSERVICE_ACCESS
                    | EFI_VARIABLE_ATTRIBUTE_RUNTIME_ACCESS,
            )
        },
    }
}

/// Whatever the privileges and firmware state, an action the Windows
/// manager reports as supported is never one that performing would reject
/// as unsupported.
pub proof fn lemma_windows_supported_actions_performable(
    has_shutdown_privilege: bool,
    can_firmware: bool,
    action: PowerAction,
)
    requires
        spec_windows_supported_actions(has_shutdown_privilege, can_firmware).contains(action),
    ensures
        spec_windows_power_plan(action) is Ok,
{
    let s = spec_windows_supported_actions(has_shutdown_privilege, can_firmware);
    let i = choose|i: int| 0 <= i < s.len() && s[i] == action;
    assert(s[i] == action);
}

} // verus!
