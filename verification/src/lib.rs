//! Platform abstraction and discovery core for a small remote-control agent
//! daemon.
//!
//! The crate gathers the decision logic of the agent: the SSDP message codec,
//! the discovery registration lifecycle, the power-capability rules, the
//! service-status mapping and the service-dispatcher bookkeeping. Everything
//! that talks to the operating system (sockets, the message bus, the service
//! control manager) lives outside; this crate computes what those calls should
//! do and what their answers mean.

use vstd::prelude::*;

pub mod addr;
pub mod codec;
pub mod discovery;
pub mod dispatcher;
pub mod icon;
pub mod name;
pub mod power;
pub mod rpc;
pub mod ssdp;
pub mod status;

verus! {

/// The reason an I/O step failed, reduced to what the callers decide on.
#[derive(Debug, Clone, Copy, PartialEq, Eq, Structural)]
pub enum IoErrorKind {
    /// No usable local address was available for binding.
    AddressNotAvailable,
    /// Any other I/O failure.
    Other,
}

/// A failure reported by the platform backend itself.
#[derive(Debug, Clone, Copy, PartialEq, Eq, Structural)]
pub enum PlatformError {
    /// The system message bus reported an error.
    Bus,
    /// A message-bus request did not answer within the allowed time.
    BusTimeout,
    /// A Win32 call failed with the given error code.
    Win32(u32),
}

/// The error surface of the platform abstraction layer.
#[derive(Debug, Clone, Copy, PartialEq, Eq, Structural)]
pub enum PlatformAbstractionError {
    /// An I/O operation failed.
    Io(IoErrorKind),
    /// The platform backend failed.
    Platform(PlatformError),
    /// The operation is not supported in the current configuration.
    Unsupported,
}

/// The process exit code: zero for a clean shutdown, one when the platform
/// abstraction could not be constructed, two when the application failed
/// while running.
pub fn process_exit_code(platform_constructed: bool, run_succeeded: bool) -> (r: i32)
    ensures
        !platform_constructed ==> r == 1,
        platform_constructed && !run_succeeded ==> r == 2,
        platform_constructed && run_succeeded ==> r == 0,
{
    if !platform_constructed {
        1
    } else if !run_succeeded {
        2
    } else {
        0
    }
}

/// The platform abstraction: the managers the host offers. A capability
/// whose backend is absent is `None`, which is not an error; callers turn
/// it into their own "unimplemented" answer.
pub struct PlatformAbstraction {
    /// The power manager, when the session manager could be reached.
    pub power: Option<crate::power::LinuxPowerManager>,
    /// The discovery manager's registration slots.
    pub discovery: crate::discovery::DiscoveryState,
    /// The status manager.
    pub status: crate::status::LinuxStatusManager,
}

impl PlatformAbstraction {
    /// Creates the platform abstraction. The power manager exists exactly
    /// when the session-manager connection was established.
    pub fn new(login1_available: bool) -> (r: Self)
        ensures
            r.power is Some <==> login1_available,
            r.discovery.mdns_slot is None,
            r.discovery.ssdp_slot is None,
    {
        let power = if login1_available {
            Some(crate::power::LinuxPowerManager::new())
        } else {
            None
        };
        PlatformAbstraction {
            power,
            discovery: crate::discovery::DiscoveryState::new(),
            status: crate::status::LinuxStatusManager,
        }
    }

    /// Retrieves the power manager, when one exists.
    pub fn power_manager(&self) -> (r: Option<&crate::power::LinuxPowerManager>)
        ensures
            r is Some <==> self.power is Some,
    {
        self.power.as_ref()
    }

    /// Retrieves the discovery manager.
    pub fn discovery_manager(&self) -> (r: &crate::discovery::DiscoveryState)
        ensures
            *r == self.discovery,
    {
        &self.discovery
    }

    /// Retrieves the status manager.
    pub fn status_manager(&self) -> (r: &crate::status::LinuxStatusManager) {
        &self.status
    }
}

} // verus!
