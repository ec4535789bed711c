//! Runtime and controller errors with their machine-readable codes.
//!
//! Errors raised by the kinematics, workspace and planning layers are held
//! by kind: the runtime only reads which kind occurred to choose its code.

use vstd::prelude::*;

verus! {

/// Errors of a robot controller.
#[derive(Debug, PartialEq, Eq)]
pub enum ControllerError {
    AlreadyConnected,
    NotConnected,
    UnsupportedCapability,
    Timeout,
    Protocol(String),
    InvalidManifest(String),
    /// The requested backend is not registered.
    NotFound(String),
    /// The serial port opened but no firmware answered the handshake.
    NoFirmware,
    /// The serial port could not be opened.
    PortInUse(String),
    /// The connection was lost mid-operation.
    ConnectionLost,
}

pub open spec fn controller_code(e: ControllerError) -> Seq<char> {
    match e {
        ControllerError::AlreadyConnected => "already_connected"@,
        ControllerError::NotConnected => "not_connected"@,
        ControllerError::UnsupportedCapability => "unsupported_capability"@,
        ControllerError::Timeout => "timeout"@,
        ControllerError::Protocol(_) => "protocol_error"@,
        ControllerError::InvalidManifest(_) => "invalid_manifest"@,
        ControllerError::NotFound(_) => "not_found"@,
        ControllerError::NoFirmware => "no_firmware"@,
        ControllerError::PortInUse(_) => "port_in_use"@,
        ControllerError::ConnectionLost => "connection_lost"@,
    }
}

impl ControllerError {
    /// Machine-readable code of the error.
    pub fn error_code(&self) -> (r: &'static str)
        ensures
            r@ == controller_code(*self),
    {
        match self {
            ControllerError::AlreadyConnected => "already_connected",
            ControllerError::NotConnected => "not_connected",
            ControllerError::UnsupportedCapability => "unsupported_capability",
            ControllerError::Timeout => "timeout",
            ControllerError::Protocol(_) => "protocol_error",
            ControllerError::InvalidManifest(_) => "invalid_manifest",
            ControllerError::NotFound(_) => "not_found",
            ControllerError::NoFirmware => "no_firmware",
            ControllerError::PortInUse(_) => "port_in_use",
            ControllerError::ConnectionLost => "connection_lost",
        }
    }
}

/// Kind of a robot-model error.
#[derive(Debug, Clone, Copy, PartialEq, Eq, Structural)]
pub enum RobotModelErrorKind {
    InvalidRobotId,
    ModelSpecMismatch,
}

/// Kind of a workspace-analysis error.
#[derive(Debug, Clone, Copy, PartialEq, Eq, Structural)]
pub enum WorkspaceErrorKind {
    InvalidSampleCount,
    InvalidTolerance,
    InvalidPoint,
    EmptyWorkspace,
}

/// Kind of an inverse-kinematics error.
#[derive(Debug, Clone, Copy, PartialEq, Eq, Structural)]
pub enum IkErrorKind {
    UnsupportedJointType,
}

/// Kind of a planning error.
#[derive(Debug, Clone, Copy, PartialEq, Eq, Structural)]
pub enum PlanningErrorKind {
    IkFailed,
    IkFailedPosition,
    JointLimitViolation,
    JointCountMismatch,
    InvalidGoal,
    UnreachableGoal,
    CollisionDetected,
    EmptyProgram,
    InvalidContext,
    IKFailure,
    Ik(IkErrorKind),
}

/// Errors of the runtime.
#[derive(Debug, PartialEq, Eq)]
pub enum RuntimeError {
    RobotModel(RobotModelErrorKind),
    Workspace(WorkspaceErrorKind),
    Planning(PlanningErrorKind),
    Ik(IkErrorKind),
    JointCountMismatch { expected: usize, received: usize },
    ToolFrameNotFound { frame_id: u64 },
    /// A feature-flagged surface was invoked while the flag is disabled.
    FeatureDisabled { feature: &'static str },
    /// A compiled plan has no waypoints or zero duration.
    InvalidCompiledPlan { reason: String },
    /// Undo with an empty command history.
    EmptyCommandHistory,
    /// Undo against a plan that is not the command's pre-state.
    StaleUndo,
    /// Undo whose expected history version is stale.
    UndoVersionMismatch { expected: u64, actual: u64 },
    /// A controller failure, carried with its own code.
    ControllerFailed { source: ControllerError },
    /// `Repeat` execution requested with no plan loaded.
    NoActivePlan,
    StalePlanRevision { expected: u64, actual: u64 },
    StalePlanFingerprint { expected: String, actual: String },
    InvalidUrdf { message: String },
    UrdfChainError { message: String },
    CompileFailed { segment_index: usize, message: String },
    SemanticValidationError { message: String },
    LoweringError { message: String },
    DofMismatch { message: String },
    Persistence { message: String },
    RobotNotFound { id: String },
    WorkspaceNotFound { id: String },
}

pub open spec fn ik_code(e: IkErrorKind) -> Seq<char> {
    match e {
        IkErrorKind::UnsupportedJointType => "unsupported_joint_type"@,
    }
}

pub open spec fn planning_code(e: PlanningErrorKind) -> Seq<char> {
    match e {
        PlanningErrorKind::IkFailed => "ik_failed"@,
        PlanningErrorKind::IkFailedPosition => "ik_failed"@,
        PlanningErrorKind::JointLimitViolation => "joint_limit_violation"@,
        PlanningErrorKind::JointCountMismatch => "joint_count_mismatch"@,
        PlanningErrorKind::InvalidGoal => "invalid_goal"@,
        PlanningErrorKind::UnreachableGoal => "unreachable_goal"@,
        PlanningErrorKind::CollisionDetected => "collision_detected"@,
        PlanningErrorKind::EmptyProgram => "empty_program"@,
        PlanningErrorKind::InvalidContext => "invalid_context"@,
        PlanningErrorKind::IKFailure => "ik_failure"@,
        PlanningErrorKind::Ik(k) => ik_code(k),
    }
}

pub open spec fn runtime_code(e: RuntimeError) -> Seq<char> {
    match e {
        RuntimeError::RobotModel(k) => match k {
            RobotModelErrorKind::InvalidRobotId => "invalid_robot_id"@,
            RobotModelErrorKind::ModelSpecMismatch => "model_spec_mismatch"@,
        },
        RuntimeError::Workspace(k) => match k {
            WorkspaceErrorKind::InvalidSampleCount => "invalid_sample_count"@,
            WorkspaceErrorKind::InvalidTolerance => "invalid_tolerance"@,
            WorkspaceErrorKind::InvalidPoint => "invalid_point"@,
            WorkspaceErrorKind::EmptyWorkspace => "empty_workspace"@,
        },
        RuntimeError::Planning(k) => planning_code(k),
        RuntimeError::Ik(k) => ik_code(k),
        RuntimeError::JointCountMismatch { .. } => "joint_count_mismatch"@,
        RuntimeError::ToolFrameNotFound { .. } => "tool_frame_not_found"@,
        RuntimeError::FeatureDisabled { .. } => "feature_disabled"@,
        RuntimeError::InvalidCompiledPlan { .. } => "invalid_compiled_plan"@,
        RuntimeError::EmptyCommandHistory => "empty_command_history"@,
        RuntimeError::StaleUndo => "stale_undo"@,
        RuntimeError::UndoVersionMismatch { .. } => "undo_version_mismatch"@,
        RuntimeError::ControllerFailed { source } => controller_code(source),
        RuntimeError::NoActivePlan => "no_active_plan"@,
        RuntimeError::StalePlanRevision { .. } => "stale_plan_revision"@,
        RuntimeError::StalePlanFingerprint { .. } => "stale_plan_fingerprint"@,
        RuntimeError::InvalidUrdf { .. } => "invalid_urdf"@,
        RuntimeError::UrdfChainError { .. } => "urdf_chain_error"@,
        RuntimeError::CompileFailed { .. } => "compile_failed"@,
        RuntimeError::SemanticValidationError { .. } => "semantic_validation_error"@,
        RuntimeError::LoweringError { .. } => "lowering_error"@,
        RuntimeError::DofMismatch { .. } => "dof_mismatch"@,
        RuntimeError::Persistence { .. } => "persistence_error"@,
        RuntimeError::RobotNotFound { .. } => "robot_not_found"@,
        RuntimeError::WorkspaceNotFound { .. } => "workspace_not_found"@,
    }
}

fn ik_error_code(e: IkErrorKind) -> (r: &'static str)
    ensures
        r@ == ik_code(e),
{
    match e {
        IkErrorKind::UnsupportedJointType => "unsupported_joint_type",
    }
}

impl RuntimeError {
    /// Machine-readable error code for the API layer.
    pub fn error_code(&self) -> (r: &'static str)
        ensures
            r@ == runtime_code(*self),
    {
        match self {
            RuntimeError::RobotModel(e) => match e {
                RobotModelErrorKind::InvalidRobotId => "invalid_robot_id",
                RobotModelErrorKind::ModelSpecMismatch => "model_spec_mismatch",
            },
            RuntimeError::Workspace(e) => match e {
                WorkspaceErrorKind::InvalidSampleCount => "invalid_sample_count",
                WorkspaceErrorKind::InvalidTolerance => "invalid_tolerance",
                WorkspaceErrorKind::InvalidPoint => "invalid_point",
                WorkspaceErrorKind::EmptyWorkspace => "empty_workspace",
            },
            RuntimeError::Planning(e) => match e {
                PlanningErrorKind::IkFailed => "ik_failed",
                PlanningErrorKind::IkFailedPosition => "ik_failed",
                PlanningErrorKind::JointLimitViolation => "joint_limit_violation",
                PlanningErrorKind::JointCountMismatch => "joint_count_mismatch",
                PlanningErrorKind::InvalidGoal => "invalid_goal",
                PlanningErrorKind::UnreachableGoal => "unreachable_goal",
                PlanningErrorKind::CollisionDetected => "collision_detected",
                PlanningErrorKind::EmptyProgram => "empty_program",
                PlanningErrorKind::InvalidContext => "invalid_context",
                PlanningErrorKind::IKFailure => "ik_failure",
                PlanningErrorKind::Ik(k) => ik_error_code(*k),
            },
            RuntimeError::Ik(k) => ik_error_code(*k),
            RuntimeError::JointCountMismatch { .. } => "joint_count_mismatch",
            RuntimeError::ToolFrameNotFound { .. } => "tool_frame_not_found",
            RuntimeError::FeatureDisabled { .. } => "feature_disabled",
            RuntimeError::InvalidCompiledPlan { .. } => "invalid_compiled_plan",
            RuntimeError::EmptyCommandHistory => "empty_command_history",
            RuntimeError::StaleUndo => "stale_undo",
            RuntimeError::UndoVersionMismatch { .. } => "undo_version_mismatch",
            RuntimeError::ControllerFailed { source } => source.error_code(),
            RuntimeError::NoActivePlan => "no_active_plan",
            RuntimeError::StalePlanRevision { .. } => "stale_plan_revision",
            RuntimeError::StalePlanFingerprint { .. } => "stale_plan_fingerprint",
            RuntimeError::InvalidUrdf { .. } => "invalid_urdf",
            RuntimeError::UrdfChainError { .. } => "urdf_chain_error",
            RuntimeError::CompileFailed { .. } => "compile_failed",
            RuntimeError::SemanticValidationError { .. } => "semantic_validation_error",
            RuntimeError::LoweringError { .. } => "lowering_error",
            RuntimeError::DofMismatch { .. } => "dof_mismatch",
            RuntimeError::Persistence { .. } => "persistence_error",
            RuntimeError::RobotNotFound { .. } => "robot_not_found",
            RuntimeError::WorkspaceNotFound { .. } => "workspace_not_found",
        }
    }

    /// True when the error reports a stale execution artifact (plan or undo
    /// state).
    pub fn is_stale(&self) -> (r: bool)
        ensures
            r == (*self is StalePlanRevision || *self is StalePlanFingerprint || *self is StaleUndo),
    {
        match self {
            RuntimeError::StalePlanRevision { .. } | RuntimeError::StalePlanFingerprint { .. }
            | RuntimeError::StaleUndo => true,
            _ => false,
        }
    }
}

impl From<ControllerError> for RuntimeError {
    fn from(e: ControllerError) -> (r: Self) {
        RuntimeError::ControllerFailed { source: e }
    }
}

impl vstd::std_specs::convert::FromSpecImpl<ControllerError> for RuntimeError {
    open spec fn obeys_from_spec() -> bool {
        true
    }

    open spec fn from_spec(e: ControllerError) -> RuntimeError {
        RuntimeError::ControllerFailed { source: e }
    }
}

/// Law: a controller failure keeps its real machine-readable code when it
/// becomes a runtime error.
pub proof fn lemma_controller_code_survives_conversion(e: ControllerError)
    ensures
        runtime_code(RuntimeError::ControllerFailed { source: e }) == controller_code(e),
{
}

} // verus!
