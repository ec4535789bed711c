//! Execution-plan vocabulary: repeat modes, the UI session projection,
//! plan states and the authoritative executor session state machine.

use vstd::prelude::*;

verus! {

/// How many times a session executes its plan.
#[derive(Debug, Clone, Copy, PartialEq, Eq, Structural)]
pub enum ExecutionMode {
    /// A single execution.
    Once,
    /// Re-execute the plan `count` times in one session.
    Repeat { count: u32 },
}

impl Default for ExecutionMode {
    fn default() -> (m: Self)
        ensures
            m == ExecutionMode::Once,
    {
        ExecutionMode::Once
    }
}

impl ExecutionMode {
    /// Total number of iterations this mode runs; `None` for `Once`.
    pub fn total_iterations(&self) -> (r: Option<u32>)
        ensures
            r == (match *self {
                ExecutionMode::Once => None,
                ExecutionMode::Repeat { count } => Some(count),
            }),
    {
        match self {
            ExecutionMode::Once => None,
            ExecutionMode::Repeat { count } => Some(*count),
        }
    }
}

/// Kind of motion of an active plan.
#[derive(Debug, Clone, Copy, PartialEq, Eq, Structural)]
pub enum MotionType {
    MoveJ,
    MoveL,
    /// Multi-segment motion program.
    Program,
}

/// State of an active motion plan.
#[derive(Debug, Clone, Copy, PartialEq, Eq, Structural)]
pub enum PlanState {
    Created,
    Active,
    Paused,
    Completed,
    Cancelled,
    Failed,
}

impl PlanState {
    pub fn is_terminal(&self) -> (r: bool)
        ensures
            r == (*self is Completed || *self is Cancelled || *self is Failed),
    {
        match self {
            PlanState::Completed | PlanState::Cancelled | PlanState::Failed => true,
            _ => false,
        }
    }
}

/// Read-only UI projection of an execution session's state.
#[derive(Debug, Clone, Copy, PartialEq, Eq, Structural)]
pub enum SessionStatus {
    Ready,
    Running,
    Paused,
    Completed,
    Cancelled,
    Failed,
}

pub open spec fn status_is_terminal(s: SessionStatus) -> bool {
    s is Completed || s is Cancelled || s is Failed
}

/// A request that moves a session status.
pub ghost enum StatusRequest {
    Pause,
    Resume,
    Cancel,
    Fail,
}

/// The status a request leaves: only a running session pauses, only a
/// paused one resumes, and any unfinished one can be cancelled or fail.
pub open spec fn status_after(s: SessionStatus, req: StatusRequest) -> SessionStatus {
    match req {
        StatusRequest::Pause => if s is Running {
            SessionStatus::Paused
        } else {
            s
        },
        StatusRequest::Resume => if s is Paused {
            SessionStatus::Running
        } else {
            s
        },
        StatusRequest::Cancel => if status_is_terminal(s) {
            s
        } else {
            SessionStatus::Cancelled
        },
        StatusRequest::Fail => if status_is_terminal(s) {
            s
        } else {
            SessionStatus::Failed
        },
    }
}

impl SessionStatus {
    pub fn is_terminal(&self) -> (r: bool)
        ensures
            r == status_is_terminal(*self),
    {
        match self {
            SessionStatus::Completed | SessionStatus::Cancelled | SessionStatus::Failed => true,
            _ => false,
        }
    }

    pub fn is_active(&self) -> (r: bool)
        ensures
            r == (*self is Running || *self is Paused),
    {
        match self {
            SessionStatus::Running | SessionStatus::Paused => true,
            _ => false,
        }
    }

    /// Status after a pause request: only a running session pauses.
    pub fn paused(self) -> (r: Self)
        ensures
            r == status_after(self, StatusRequest::Pause),
    {
        match self {
            SessionStatus::Running => SessionStatus::Paused,
            other => other,
        }
    }

    /// Status after a resume request: only a paused session resumes.
    pub fn resumed(self) -> (r: Self)
        ensures
            r == status_after(self, StatusRequest::Resume),
    {
        match self {
            SessionStatus::Paused => SessionStatus::Running,
            other => other,
        }
    }

    /// Status after a cancellation: any session that has not finished is
    /// cancelled.
    pub fn cancelled(self) -> (r: Self)
        ensures
            r == status_after(self, StatusRequest::Cancel),
    {
        if self.is_terminal() {
            self
        } else {
            SessionStatus::Cancelled
        }
    }

    /// Status after a failure: any session that has not finished fails.
    pub fn failed(self) -> (r: Self)
        ensures
            r == status_after(self, StatusRequest::Fail),
    {
        if self.is_terminal() {
            self
        } else {
            SessionStatus::Failed
        }
    }
}

/// Formal operational state machine of an execution session.
#[derive(Debug, Clone, Copy, PartialEq, Eq, Hash, Structural)]
pub enum ExecutionSessionState {
    Created,
    Reserved,
    Dispatched,
    Running,
    Paused,
    Completed,
    Cancelled,
    Failed,
}

pub open spec fn state_is_terminal(s: ExecutionSessionState) -> bool {
    s is Completed || s is Cancelled || s is Failed
}

/// The executor state a request leaves (an executor cannot be made to
/// fail from outside: a failure request leaves it as it is).
pub open spec fn state_after(s: ExecutionSessionState, req: StatusRequest) -> ExecutionSessionState {
    match req {
        StatusRequest::Pause => if s is Running {
            ExecutionSessionState::Paused
        } else {
            s
        },
        StatusRequest::Resume => if s is Paused {
            ExecutionSessionState::Running
        } else {
            s
        },
        StatusRequest::Cancel => if state_is_terminal(s) {
            s
        } else {
            ExecutionSessionState::Cancelled
        },
        StatusRequest::Fail => s,
    }
}

impl ExecutionSessionState {
    pub fn is_terminal(&self) -> (r: bool)
        ensures
            r == state_is_terminal(*self),
    {
        match self {
            ExecutionSessionState::Completed | ExecutionSessionState::Cancelled
            | ExecutionSessionState::Failed => true,
            _ => false,
        }
    }

    pub fn is_active(&self) -> (r: bool)
        ensures
            r == (*self is Running || *self is Paused),
    {
        match self {
            ExecutionSessionState::Running | ExecutionSessionState::Paused => true,
            _ => false,
        }
    }

    /// Start of an executor: only a dispatched or reserved session starts
    /// running; any other state is reported back as invalid.
    pub fn started(self) -> (r: Result<Self, Self>)
        ensures
            (self is Dispatched || self is Reserved) ==> r == Ok::<Self, Self>(
                ExecutionSessionState::Running,
            ),
            !(self is Dispatched || self is Reserved) ==> r == Err::<Self, Self>(self),
    {
        match self {
            ExecutionSessionState::Dispatched | ExecutionSessionState::Reserved => Ok(
                ExecutionSessionState::Running,
            ),
            other => Err(other),
        }
    }

    /// Pause of an executor: only a running session pauses.
    pub fn paused(self) -> (r: Self)
        ensures
            r == state_after(self, StatusRequest::Pause),
    {
        match self {
            ExecutionSessionState::Running => ExecutionSessionState::Paused,
            other => other,
        }
    }

    /// Resume of an executor: only a paused session resumes.
    pub fn resumed(self) -> (r: Self)
        ensures
            r == state_after(self, StatusRequest::Resume),
    {
        match self {
            ExecutionSessionState::Paused => ExecutionSessionState::Running,
            other => other,
        }
    }

    /// Cancellation of an executor: any unfinished session is cancelled.
    pub fn cancelled(self) -> (r: Self)
        ensures
            r == state_after(self, StatusRequest::Cancel),
    {
        if self.is_terminal() {
            self
        } else {
            ExecutionSessionState::Cancelled
        }
    }
}

/// The UI projection of an authoritative session state.
pub open spec fn project(s: ExecutionSessionState) -> SessionStatus {
    match s {
        ExecutionSessionState::Created | ExecutionSessionState::Reserved
        | ExecutionSessionState::Dispatched => SessionStatus::Ready,
        ExecutionSessionState::Running => SessionStatus::Running,
        ExecutionSessionState::Paused => SessionStatus::Paused,
        ExecutionSessionState::Completed => SessionStatus::Completed,
        ExecutionSessionState::Cancelled => SessionStatus::Cancelled,
        ExecutionSessionState::Failed => SessionStatus::Failed,
    }
}

impl From<ExecutionSessionState> for SessionStatus {
    fn from(state: ExecutionSessionState) -> (r: Self) {
        match state {
            ExecutionSessionState::Created | ExecutionSessionState::Reserved
            | ExecutionSessionState::Dispatched => SessionStatus::Ready,
            ExecutionSessionState::Running => SessionStatus::Running,
            ExecutionSessionState::Paused => SessionStatus::Paused,
            ExecutionSessionState::Completed => SessionStatus::Completed,
            ExecutionSessionState::Cancelled => SessionStatus::Cancelled,
            ExecutionSessionState::Failed => SessionStatus::Failed,
        }
    }
}

impl vstd::std_specs::convert::FromSpecImpl<ExecutionSessionState> for SessionStatus {
    open spec fn obeys_from_spec() -> bool {
        true
    }

    open spec fn from_spec(state: ExecutionSessionState) -> SessionStatus {
        project(state)
    }
}

/// Law: the projection keeps the phase of a session: a state is terminal
/// exactly when its projection is, and active exactly when its projection
/// is.
pub proof fn lemma_projection_keeps_phase(s: ExecutionSessionState)
    ensures
        state_is_terminal(s) == status_is_terminal(project(s)),
        (s is Running || s is Paused) == (project(s) is Running || project(s) is Paused),
{
}

/// Law: finished sessions stay finished: no pause, resume, cancellation or
/// failure request changes a terminal status, and no request moves a
/// terminal executor state; an unfinished one always reaches a terminal
/// status when cancelled or failed.
pub proof fn lemma_terminal_status_is_absorbing(s: SessionStatus, e: ExecutionSessionState, req: StatusRequest)
    ensures
        status_is_terminal(s) ==> status_after(s, req) == s,
        state_is_terminal(e) ==> state_after(e, req) == e,
        (req is Cancel || req is Fail) ==> status_is_terminal(status_after(s, req)),
{
}

/// Law: the projection commutes with the requests the executor honours:
/// pausing, resuming or cancelling an executor state and then projecting it
/// gives the projected status after the same request.
pub proof fn lemma_projection_commutes(e: ExecutionSessionState, req: StatusRequest)
    requires
        !(req is Fail),
    ensures
        project(state_after(e, req)) == status_after(project(e), req),
{
}

/// Origin of an execution.
#[derive(Debug, Clone, Copy, PartialEq, Eq, Structural)]
pub enum ExecutionSource {
    /// Kinematic simulation.
    Simulation,
    /// Physical robot.
    Hardware,
}

impl ExecutionSource {
    /// The display name of the source.
    pub fn display_name(&self) -> (r: String)
        ensures
            r@ == (match *self {
                ExecutionSource::Simulation => "Simulation"@,
                ExecutionSource::Hardware => "Hardware"@,
            }),
    {
        match self {
            ExecutionSource::Simulation => String::from_str("Simulation"),
            ExecutionSource::Hardware => String::from_str("Hardware"),
        }
    }
}

/// Iteration a session starts at.
pub fn default_iteration() -> (r: u32)
    ensures
        r == 1,
{
    1
}

} // verus!
