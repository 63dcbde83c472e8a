//! Application status and its translation to the platform service state.
//!
//! The lifecycle is linear: starting, running, stopping, stopped; either
//! error variant is a terminal equivalent of stopped. On Linux reporting is
//! a no-op; on Windows each status maps to one service-state report, planned
//! here and carried out by the dispatcher.

use vstd::prelude::*;

use crate::dispatcher::{ScmState, ServiceExitCode};
use crate::{PlatformAbstractionError, PlatformError};

verus! {

/// The application lifecycle status.
#[derive(Debug, Clone, Copy, PartialEq, Eq, Structural)]
pub enum ApplicationStatus {
    /// The application is starting up.
    Starting,
    /// The application is running.
    Running,
    /// The application is shutting down.
    Stopping,
    /// The application has stopped.
    Stopped,
    /// The application has failed with a platform error.
    PlatformError(PlatformAbstractionError),
    /// The application has failed with an application error; the error value
    /// itself stays with the caller.
    ApplicationError,
}

/// A status sink. The Linux manager ignores every status; the Windows
/// manager forwards each to the service dispatcher.
pub trait StatusManager {
    /// Takes note of the application status.
    fn set_status(&self, status: ApplicationStatus);
}

/// The Linux status manager: the init system needs no reports.
pub struct LinuxStatusManager;

impl StatusManager for LinuxStatusManager {
    fn set_status(&self, _status: ApplicationStatus) {
    }
}

/// The service-state report each status maps to: the state to report, the
/// exit code to carry, and the wait hint in milliseconds.
pub open spec fn spec_status_report(status: ApplicationStatus) -> (ScmState, ServiceExitCode, u32) {
    match status {
        ApplicationStatus::Starting => (ScmState::StartPending, ServiceExitCode::Success, 5000u32),
        ApplicationStatus::Running => (ScmState::Running, ServiceExitCode::Success, 0u32),
        ApplicationStatus::Stopping => (ScmState::StopPending, ServiceExitCode::Success, 5000u32),
        ApplicationStatus::Stopped => (ScmState::Stopped, ServiceExitCode::Success, 0u32),
        ApplicationStatus::PlatformError(e) => match e {
            PlatformAbstractionError::Platform(PlatformError::Win32(code)) => (
                ScmState::Stopped,
                ServiceExitCode::Win32(code),
                0u32,
            ),
            _ => (ScmState::Stopped, ServiceExitCode::ServiceSpecific(1), 0u32),
        },
        ApplicationStatus::ApplicationError => (
            ScmState::Stopped,
            ServiceExitCode::ServiceSpecific(2),
            0u32,
        ),
    }
}

/// Plans the service-state report for a status.
pub fn plan_status_report(status: &ApplicationStatus) -> (r: (ScmState, ServiceExitCode, u32))
    ensures
        r == spec_status_report(*status),
{
    match status {
        ApplicationStatus::Starting => (ScmState::StartPending, ServiceExitCode::Success, 5000),
        ApplicationStatus::Running => (ScmState::Running, ServiceExitCode::Success, 0),
        ApplicationStatus::Stopping => (ScmState::StopPending, ServiceExitCode::Success, 5000),
        ApplicationStatus::Stopped => (ScmState::Stopped, ServiceExitCode::Success, 0),
        ApplicationStatus::PlatformError(e) => match e {
            PlatformAbstractionError::Platform(PlatformError::Win32(code)) => (
                ScmState::Stopped,
                ServiceExitCode::Win32(*code),
                0,
            ),
            _ => (ScmState::Stopped, ServiceExitCode::ServiceSpecific(1), 0),
        },
        ApplicationStatus::ApplicationError => (
            ScmState::Stopped,
            ServiceExitCode::ServiceSpecific(2),
            0,
        ),
    }
}

} // verus!
