//! The service-dispatcher bookkeeping for a control-manager hosted service:
//! the one-shot dispatch slot, the classification of the process's service
//! environment, the control-request handler, and status reports with
//! strictly increasing checkpoints.
//!
//! The control manager itself calls back on its own threads; everything here
//! is the decision each callback makes, on plain values.

use vstd::prelude::*;

use crate::PlatformError;

verus! {

/// The service-state codes the control manager understands.
#[derive(Debug, Clone, Copy, PartialEq, Eq, Structural)]
pub enum ScmState {
    StartPending,
    Running,
    StopPending,
    Stopped,
}

/// The numeric code of each service state.
pub open spec fn spec_scm_state_code(s: ScmState) -> u32 {
    match s {
        ScmState::Stopped => 1u32,
        ScmState::StartPending => 2u32,
        ScmState::StopPending => 3u32,
        ScmState::Running => 4u32,
    }
}

/// Writes the numeric code of a service state.
pub fn scm_state_code(s: ScmState) -> (r: u32)
    ensures
        r == spec_scm_state_code(s),
{
    match s {
        ScmState::Stopped => 1,
        ScmState::StartPending => 2,
        ScmState::StopPending => 3,
        ScmState::Running => 4,
    }
}

/// The service reports itself as its own Win32 process.
pub const SERVICE_WIN32_OWN_PROCESS: u32 = 16;

/// The accepted-controls bit for stop requests.
pub const SERVICE_ACCEPT_STOP: u32 = 1;

/// The control code of a stop request.
pub const SERVICE_CONTROL_STOP: u32 = 1;

/// The control code of an interrogation.
pub const SERVICE_CONTROL_INTERROGATE: u32 = 4;

/// The code for success.
pub const NO_ERROR: u32 = 0;

/// The code returned for controls the service does not implement.
pub const ERROR_CALL_NOT_IMPLEMENTED: u32 = 120;

/// The code for an operation attempted in the wrong state.
pub const ERROR_INVALID_STATE: u32 = 5023;

/// The code announcing a service-specific exit code.
pub const ERROR_SERVICE_SPECIFIC_ERROR: u32 = 1066;

/// The exit code a status report carries.
#[derive(Debug, Clone, Copy, PartialEq, Eq, Structural)]
pub enum ServiceExitCode {
    /// Clean: no error.
    Success,
    /// A Win32 error code.
    Win32(u32),
    /// A service-specific error code.
    ServiceSpecific(u32),
}

/// The pair (Win32 exit code, service-specific exit code) a report carries.
pub open spec fn spec_exit_code_pair(e: ServiceExitCode) -> (u32, u32) {
    match e {
        ServiceExitCode::Success => (NO_ERROR, 0u32),
        ServiceExitCode::Win32(code) => (code, 0u32),
        ServiceExitCode::ServiceSpecific(code) => (ERROR_SERVICE_SPECIFIC_ERROR, code),
    }
}

/// One status record as handed to the control manager.
#[derive(Debug, Clone, Copy, PartialEq, Eq, Structural)]
pub struct ServiceStatusRecord {
    pub service_type: u32,
    pub current_state: u32,
    pub controls_accepted: u32,
    pub win32_exit_code: u32,
    pub service_specific_exit_code: u32,
    pub check_point: u32,
    pub wait_hint: u32,
}

/// The report a context with counter `cp` makes for a state, exit code and
/// wait hint: stop is the only accepted control, and never while start is
/// pending.
pub open spec fn spec_status_record(
    cp: u32,
    state: ScmState,
    exit: ServiceExitCode,
    wait_hint: u32,
) -> ServiceStatusRecord {
    ServiceStatusRecord {
        service_type: SERVICE_WIN32_OWN_PROCESS,
        current_state: spec_scm_state_code(state),
        controls_accepted: if state is StartPending {
            0u32
        } else {
            SERVICE_ACCEPT_STOP
        },
        win32_exit_code: spec_exit_code_pair(exit).0,
        service_specific_exit_code: spec_exit_code_pair(exit).1,
        check_point: cp,
        wait_hint,
    }
}

/// The per-service control context: the monotonic checkpoint counter.
pub struct ServiceCtrlContext {
    pub check_point: u32,
}

impl ServiceCtrlContext {
    /// A fresh context; the counter starts at one.
    pub fn new() -> (r: Self)
        ensures
            r.check_point == 1,
    {
        ServiceCtrlContext { check_point: 1 }
    }

    /// Builds one status report and advances the counter, so that every
    /// report carries a strictly larger checkpoint than the one before.
    pub fn report_status(&mut self, state: ScmState, exit: ServiceExitCode, wait_hint: u32) -> (r:
        ServiceStatusRecord)
        requires
            old(self).check_point < u32::MAX,
        ensures
            r == spec_status_record(old(self).check_point, state, exit, wait_hint),
            final(self).check_point == old(self).check_point + 1,
            r.check_point == old(self).check_point,
    {
        let (win32_exit_code, service_specific_exit_code) = match exit {
            ServiceExitCode::Success => (0u32, 0u32),
            ServiceExitCode::Win32(code) => (code, 0u32),
            ServiceExitCode::ServiceSpecific(code) => (1066u32, code),
        };
        let controls_accepted: u32 = match state {
            ScmState::StartPending => 0,
            _ => 1,
        };
        let record = ServiceStatusRecord {
            service_type: 16,
            current_state: scm_state_code(state),
            controls_accepted,
            win32_exit_code,
            service_specific_exit_code,
            check_point: self.check_point,
            wait_hint,
        };
        self.check_point = self.check_point + 1;
        record
    }
}

/// Reports carry strictly increasing checkpoints: a report leaves the
/// counter above the checkpoint it emitted, and every later report emits at
/// least the counter's value.
pub proof fn lemma_checkpoints_strictly_increase(
    cp_before: u32,
    first: ServiceStatusRecord,
    cp_between: u32,
    second: ServiceStatusRecord,
)
    requires
        first.check_point == cp_before,
        cp_before < cp_between,
        second.check_point >= cp_between,
    ensures
        first.check_point < second.check_point,
{
}

/// What a control request makes the handler do.
#[derive(Debug, Clone, Copy, PartialEq, Eq, Structural)]
pub struct ControlOutcome {
    /// Report stop-pending, with a checkpoint and a wait hint, first.
    pub report_stop_pending: bool,
    /// Fire the one-shot shutdown channel.
    pub send_shutdown: bool,
    /// The code to return to the control manager.
    pub code: u32,
}

/// Decides a control request: stop reports stop-pending and fires the
/// shutdown channel once; interrogation succeeds with nothing to do; any
/// other control is not implemented.
pub fn handle_control(ctrl: u32, shutdown_sender_present: bool) -> (r: ControlOutcome)
    ensures
        ctrl == SERVICE_CONTROL_STOP ==> r == (ControlOutcome {
            report_stop_pending: true,
            send_shutdown: shutdown_sender_present,
            code: NO_ERROR,
        }),
        ctrl == SERVICE_CONTROL_INTERROGATE ==> r == (ControlOutcome {
            report_stop_pending: false,
            send_shutdown: false,
            code: NO_ERROR,
        }),
        ctrl != SERVICE_CONTROL_STOP && ctrl != SERVICE_CONTROL_INTERROGATE ==> r == (
        ControlOutcome {
            report_stop_pending: false,
            send_shutdown: false,
            code: ERROR_CALL_NOT_IMPLEMENTED,
        }),
{
    if ctrl == SERVICE_CONTROL_STOP {
        ControlOutcome {
            report_stop_pending: true,
            send_shutdown: shutdown_sender_present,
            code: NO_ERROR,
        }
    } else if ctrl == SERVICE_CONTROL_INTERROGATE {
        ControlOutcome { report_stop_pending: false, send_shutdown: false, code: NO_ERROR }
    } else {
        ControlOutcome {
            report_stop_pending: false,
            send_shutdown: false,
            code: ERROR_CALL_NOT_IMPLEMENTED,
        }
    }
}

/// The process-wide dispatch slot: dispatching is one-shot, and a second
/// concurrent dispatch is refused as an invalid state, not a crash.
pub struct ServiceDispatchSlot {
    pub occupied: bool,
}

impl ServiceDispatchSlot {
    /// An empty slot: nothing dispatched yet.
    pub fn new() -> (r: Self)
        ensures
            !r.occupied,
    {
        ServiceDispatchSlot { occupied: false }
    }

    /// Claims the slot for one dispatch. A second claim fails and leaves the
    /// slot as it is.
    pub fn try_claim(&mut self) -> (r: Result<(), PlatformError>)
        ensures
            old(self).occupied ==> r == Result::<(), PlatformError>::Err(
                PlatformError::Win32(ERROR_INVALID_STATE),
            ) && *final(self) == *old(self),
            !old(self).occupied ==> r is Ok && final(self).occupied,
    {
        if self.occupied {
            Err(PlatformError::Win32(ERROR_INVALID_STATE))
        } else {
            self.occupied = true;
            Ok(())
        }
    }
}

/// The dispatcher a service body reports through: it owns the control
/// context and issues the fixed report for each lifecycle step.
pub struct ServiceDispatcher {
    pub ctx: ServiceCtrlContext,
}

impl ServiceDispatcher {
    /// A dispatcher with a fresh control context.
    pub fn new() -> (r: Self)
        ensures
            r.ctx.check_point == 1,
    {
        ServiceDispatcher { ctx: ServiceCtrlContext::new() }
    }

    /// Reports that the service is starting: start-pending, five-second
    /// wait hint.
    pub fn report_start_pending(&mut self) -> (r: ServiceStatusRecord)
        requires
            old(self).ctx.check_point < u32::MAX,
        ensures
            r == spec_status_record(
                old(self).ctx.check_point,
                ScmState::StartPending,
                ServiceExitCode::Success,
                5000u32,
            ),
            final(self).ctx.check_point == old(self).ctx.check_point + 1,
    {
        self.ctx.report_status(ScmState::StartPending, ServiceExitCode::Success, 5000)
    }

    /// Reports that the service is running.
    pub fn report_running(&mut self) -> (r: ServiceStatusRecord)
        requires
            old(self).ctx.check_point < u32::MAX,
        ensures
            r == spec_status_record(
                old(self).ctx.check_point,
                ScmState::Running,
                ServiceExitCode::Success,
                0u32,
            ),
            final(self).ctx.check_point == old(self).ctx.check_point + 1,
    {
        self.ctx.report_status(ScmState::Running, ServiceExitCode::Success, 0)
    }

    /// Reports that the service is stopping: stop-pending, five-second wait
    /// hint.
    pub fn report_stopping(&mut self) -> (r: ServiceStatusRecord)
        requires
            old(self).ctx.check_point < u32::MAX,
        ensures
            r == spec_status_record(
                old(self).ctx.check_point,
                ScmState::StopPending,
                ServiceExitCode::Success,
                5000u32,
            ),
            final(self).ctx.check_point == old(self).ctx.check_point + 1,
    {
        self.ctx.report_status(ScmState::StopPending, ServiceExitCode::Success, 5000)
    }

    /// Reports a clean stop.
    pub fn report_stopped_ok(&mut self) -> (r: ServiceStatusRecord)
        requires
            old(self).ctx.check_point < u32::MAX,
        ensures
            r == spec_status_record(
                old(self).ctx.check_point,
                ScmState::Stopped,
                ServiceExitCode::Success,
                0u32,
            ),
            final(self).ctx.check_point == old(self).ctx.check_point + 1,
    {
        self.ctx.report_status(ScmState::Stopped, ServiceExitCode::Success, 0)
    }

    /// Reports a stop with a Win32 error code.
    pub fn report_stopped_win32(&mut self, code: u32) -> (r: ServiceStatusRecord)
        requires
            old(self).ctx.check_point < u32::MAX,
        ensures
            r == spec_status_record(
                old(self).ctx.check_point,
                ScmState::Stopped,
                ServiceExitCode::Win32(code),
                0u32,
            ),
            final(self).ctx.check_point == old(self).ctx.check_point + 1,
    {
        self.ctx.report_status(ScmState::Stopped, ServiceExitCode::Win32(code), 0)
    }

    /// Reports a stop with a service-specific error code.
    pub fn report_stopped_application_err(&mut self, err: u32) -> (r: ServiceStatusRecord)
        requires
            old(self).ctx.check_point < u32::MAX,
        ensures
            r == spec_status_record(
                old(self).ctx.check_point,
                ScmState::Stopped,
                ServiceExitCode::ServiceSpecific(err),
                0u32,
            ),
            final(self).ctx.check_point == old(self).ctx.check_point + 1,
    {
        self.ctx.report_status(ScmState::Stopped, ServiceExitCode::ServiceSpecific(err), 0)
    }
}

/// What a process token group means for service detection.
#[derive(Debug, Clone, Copy, PartialEq, Eq, Structural)]
pub enum TokenGroupKind {
    /// The interactive-session group.
    Interactive,
    /// The service group.
    Service,
    /// Any other group.
    Other,
}

/// How the process is being run.
#[derive(Debug, Clone, Copy, PartialEq, Eq, Structural)]
pub enum ServiceEnvironment {
    /// Running in an interactive session.
    Interactive,
    /// Running as a user service.
    User,
    /// Running as a system service.
    System,
}

/// The classification of a token-group list: the first interactive or
/// service group decides; with neither present the process counts as a
/// system service.
pub open spec fn spec_classify_environment(gs: Seq<TokenGroupKind>) -> ServiceEnvironment
    decreases gs.len(),
{
    if gs.len() == 0 {
        ServiceEnvironment::System
    } else if gs[0] is Interactive {
        ServiceEnvironment::Interactive
    } else if gs[0] is Service {
        ServiceEnvironment::User
    } else {
        spec_classify_environment(gs.drop_first())
    }
}

/// Classifies the service environment from the process token's groups.
pub fn classify_environment(groups: &Vec<TokenGroupKind>) -> (r: ServiceEnvironment)
    ensures
        r == spec_classify_environment(groups@),
{
    proof {
        assert(groups@.skip(0int) =~= groups@);
    }
    let mut i: usize = 0;
    while i < groups.len()
        invariant
            0 <= i <= groups@.len(),
            spec_classify_environment(groups@) == spec_classify_environment(
                groups@.skip(i as int),
            ),
        decreases groups@.len() - i,
    {
        proof {
            assert(groups@.skip(i as int)[0] == groups@[i as int]);
            assert(groups@.skip(i as int).drop_first() =~= groups@.skip(i + 1));
        }
        match groups[i] {
            TokenGroupKind::Interactive => {
                return ServiceEnvironment::Interactive;
            },
            TokenGroupKind::Service => {
                return ServiceEnvironment::User;
            },
            TokenGroupKind::Other => {
            },
        }
        i += 1;
    }
    ServiceEnvironment::System
}

/// The environment to assume when detection itself failed: a normal
/// interactive application.
pub fn environment_or_default(detected: Option<ServiceEnvironment>) -> (r: ServiceEnvironment)
    ensures
        r == (match detected {
            Some(e) => e,
            None => ServiceEnvironment::Interactive,
        }),
{
    match detected {
        Some(e) => e,
        None => ServiceEnvironment::Interactive,
    }
}

/// The Win32 error embedded in a failure-severity result code, if the code
/// carries one: the Win32 facility's low half; a success code maps to no
/// error, and anything else to the generic invalid-parameter error.
pub open spec fn spec_hresult_to_win32(h: u32) -> u32 {
    if h & 0xFFFF0000u32 == 0x80070000u32 {
        h & 0xFFFFu32
    } else if h < 0x80000000u32 {
        0u32
    } else {
        87u32
    }
}

/// Extracts the Win32 error code of a result code.
pub fn hresult_to_win32(h: u32) -> (r: u32)
    ensures
        r == spec_hresult_to_win32(h),
{
    if h & 0xFFFF0000u32 == 0x80070000u32 {
        h & 0xFFFFu32
    } else if h < 0x80000000u32 {
        0
    } else {
        87
    }
}

} // verus!
