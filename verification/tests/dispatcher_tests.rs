use dragon_claw_agent::dispatcher::{
    classify_environment, environment_or_default, handle_control, hresult_to_win32, ScmState,
    ServiceDispatchSlot,
    ServiceDispatcher, ServiceEnvironment, ServiceExitCode, TokenGroupKind,
    ERROR_CALL_NOT_IMPLEMENTED, ERROR_INVALID_STATE, NO_ERROR, SERVICE_CONTROL_INTERROGATE,
    SERVICE_CONTROL_STOP,
};
use dragon_claw_agent::status::{plan_status_report, ApplicationStatus};
use dragon_claw_agent::{PlatformAbstractionError, PlatformError};

#[test]
fn service_lifecycle_reports_carry_strictly_increasing_checkpoints() {
    let mut dispatcher = ServiceDispatcher::new();
    let starting = dispatcher.report_start_pending();
    assert_eq!(starting.current_state, 2);
    assert_eq!(starting.check_point, 1);
    assert_eq!(starting.wait_hint, 5000);
    assert_eq!(starting.controls_accepted, 0);

    let running = dispatcher.report_running();
    assert_eq!(running.current_state, 4);
    assert!(running.check_point > starting.check_point);
    assert_eq!(running.wait_hint, 0);
    assert_eq!(running.controls_accepted, 1);

    let stopping = dispatcher.report_stopping();
    assert_eq!(stopping.current_state, 3);
    assert!(stopping.check_point > running.check_point);
    assert_eq!(stopping.wait_hint, 5000);

    let stopped = dispatcher.report_stopped_ok();
    assert_eq!(stopped.current_state, 1);
    assert!(stopped.check_point > stopping.check_point);
    assert_eq!(stopped.win32_exit_code, 0);
    assert_eq!(stopped.service_specific_exit_code, 0);
    assert_eq!(stopped.service_type, 16);
}

#[test]
fn error_reports_translate_exit_codes() {
    let mut dispatcher = ServiceDispatcher::new();
    let win32 = dispatcher.report_stopped_win32(5);
    assert_eq!(win32.current_state, 1);
    assert_eq!(win32.win32_exit_code, 5);
    assert_eq!(win32.service_specific_exit_code, 0);

    let specific = dispatcher.report_stopped_application_err(2);
    assert_eq!(specific.win32_exit_code, 1066);
    assert_eq!(specific.service_specific_exit_code, 2);
}

#[test]
fn stop_control_reports_and_fires_the_shutdown_channel_once() {
    let stop = handle_control(SERVICE_CONTROL_STOP, true);
    assert!(stop.report_stop_pending);
    assert!(stop.send_shutdown);
    assert_eq!(stop.code, NO_ERROR);

    let stop_spent = handle_control(SERVICE_CONTROL_STOP, false);
    assert!(!stop_spent.send_shutdown);
    assert_eq!(stop_spent.code, NO_ERROR);

    let interrogate = handle_control(SERVICE_CONTROL_INTERROGATE, true);
    assert!(!interrogate.report_stop_pending);
    assert!(!interrogate.send_shutdown);
    assert_eq!(interrogate.code, NO_ERROR);

    let other = handle_control(9, true);
    assert_eq!(other.code, ERROR_CALL_NOT_IMPLEMENTED);
}

#[test]
fn dispatch_slot_is_one_shot() {
    let mut slot = ServiceDispatchSlot::new();
    assert!(slot.try_claim().is_ok());
    assert_eq!(
        slot.try_claim(),
        Err(PlatformError::Win32(ERROR_INVALID_STATE))
    );
}

#[test]
fn environment_classification_follows_the_first_marker_group() {
    assert_eq!(
        classify_environment(&vec![TokenGroupKind::Other, TokenGroupKind::Interactive]),
        ServiceEnvironment::Interactive
    );
    assert_eq!(
        classify_environment(&vec![TokenGroupKind::Other, TokenGroupKind::Service]),
        ServiceEnvironment::User
    );
    assert_eq!(
        classify_environment(&vec![TokenGroupKind::Interactive, TokenGroupKind::Service]),
        ServiceEnvironment::Interactive
    );
    assert_eq!(
        classify_environment(&vec![TokenGroupKind::Other, TokenGroupKind::Other]),
        ServiceEnvironment::System
    );
    assert_eq!(classify_environment(&vec![]), ServiceEnvironment::System);
}

#[test]
fn status_mapping_matches_the_table() {
    assert_eq!(
        plan_status_report(&ApplicationStatus::Starting),
        (ScmState::StartPending, ServiceExitCode::Success, 5000)
    );
    assert_eq!(
        plan_status_report(&ApplicationStatus::Running),
        (ScmState::Running, ServiceExitCode::Success, 0)
    );
    assert_eq!(
        plan_status_report(&ApplicationStatus::Stopping),
        (ScmState::StopPending, ServiceExitCode::Success, 5000)
    );
    assert_eq!(
        plan_status_report(&ApplicationStatus::Stopped),
        (ScmState::Stopped, ServiceExitCode::Success, 0)
    );
    assert_eq!(
        plan_status_report(&ApplicationStatus::PlatformError(
            PlatformAbstractionError::Platform(PlatformError::Win32(31))
        )),
        (ScmState::Stopped, ServiceExitCode::Win32(31), 0)
    );
    assert_eq!(
        plan_status_report(&ApplicationStatus::PlatformError(
            PlatformAbstractionError::Unsupported
        )),
        (ScmState::Stopped, ServiceExitCode::ServiceSpecific(1), 0)
    );
    assert_eq!(
        plan_status_report(&ApplicationStatus::ApplicationError),
        (ScmState::Stopped, ServiceExitCode::ServiceSpecific(2), 0)
    );
}

#[test]
fn hresult_translation_extracts_win32_codes() {
    assert_eq!(hresult_to_win32(0x8007_0005), 5);
    assert_eq!(hresult_to_win32(0x0000_0000), 0);
    assert_eq!(hresult_to_win32(0x0007_0005), 0);
    assert_eq!(hresult_to_win32(0x8000_FFFF), 87);
}

#[test]
fn failed_detection_falls_back_to_interactive() {
    assert_eq!(
        environment_or_default(Some(ServiceEnvironment::System)),
        ServiceEnvironment::System
    );
    assert_eq!(
        environment_or_default(None),
        ServiceEnvironment::Interactive
    );
}
