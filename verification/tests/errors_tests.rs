use thalos_runtime::errors::{
    ControllerError, IkErrorKind, PlanningErrorKind, RobotModelErrorKind, RuntimeError,
    WorkspaceErrorKind,
};

#[test]
fn from_controller_connection_lost_preserves_connection_lost_code() {
    let err: RuntimeError = ControllerError::ConnectionLost.into();
    match err {
        RuntimeError::ControllerFailed { source } => {
            assert_eq!(source, ControllerError::ConnectionLost);
            assert_eq!(source.error_code(), "connection_lost");
        }
        other => panic!("ConnectionLost must map to ControllerFailed, got {other:?}"),
    }
}

#[test]
fn from_controller_preserves_real_error_codes() {
    fn code(e: ControllerError) -> &'static str {
        let err: RuntimeError = e.into();
        match err {
            RuntimeError::ControllerFailed { source } => source.error_code(),
            other => panic!("must be ControllerFailed, got {other:?}"),
        }
    }
    assert_eq!(code(ControllerError::AlreadyConnected), "already_connected");
    assert_eq!(code(ControllerError::NotConnected), "not_connected");
    assert_eq!(code(ControllerError::Timeout), "timeout");
    assert_eq!(code(ControllerError::Protocol("boom".into())), "protocol_error");
    assert_eq!(code(ControllerError::NoFirmware), "no_firmware");
    assert_eq!(code(ControllerError::PortInUse("busy".into())), "port_in_use");
    assert_eq!(code(ControllerError::ConnectionLost), "connection_lost");
}

#[test]
fn converted_error_reports_controller_code() {
    let err: RuntimeError = ControllerError::InvalidManifest("x".into()).into();
    assert_eq!(err.error_code(), "invalid_manifest");
    let err: RuntimeError = ControllerError::NotFound("esp".into()).into();
    assert_eq!(err.error_code(), "not_found");
    assert_eq!(ControllerError::UnsupportedCapability.error_code(), "unsupported_capability");
}

#[test]
fn runtime_error_codes() {
    assert_eq!(RuntimeError::RobotModel(RobotModelErrorKind::InvalidRobotId).error_code(), "invalid_robot_id");
    assert_eq!(RuntimeError::Workspace(WorkspaceErrorKind::EmptyWorkspace).error_code(), "empty_workspace");
    assert_eq!(RuntimeError::Planning(PlanningErrorKind::IkFailedPosition).error_code(), "ik_failed");
    assert_eq!(RuntimeError::Planning(PlanningErrorKind::IKFailure).error_code(), "ik_failure");
    assert_eq!(RuntimeError::Ik(IkErrorKind::UnsupportedJointType).error_code(), "unsupported_joint_type");
    assert_eq!(RuntimeError::JointCountMismatch { expected: 6, received: 4 }.error_code(), "joint_count_mismatch");
    assert_eq!(RuntimeError::EmptyCommandHistory.error_code(), "empty_command_history");
    assert_eq!(RuntimeError::UndoVersionMismatch { expected: 2, actual: 3 }.error_code(), "undo_version_mismatch");
    assert_eq!(RuntimeError::Persistence { message: "disk".into() }.error_code(), "persistence_error");
    assert_eq!(RuntimeError::WorkspaceNotFound { id: "w".into() }.error_code(), "workspace_not_found");
}

#[test]
fn stale_errors() {
    assert!(RuntimeError::StaleUndo.is_stale());
    assert!(RuntimeError::StalePlanRevision { expected: 1, actual: 2 }.is_stale());
    assert!(RuntimeError::StalePlanFingerprint { expected: "a".into(), actual: "b".into() }.is_stale());
    assert!(!RuntimeError::NoActivePlan.is_stale());
    assert!(!RuntimeError::UndoVersionMismatch { expected: 1, actual: 2 }.is_stale());
}
