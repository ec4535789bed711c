use thalos_runtime::plan::{
    default_iteration, ExecutionMode, ExecutionSessionState, ExecutionSource, PlanState,
    SessionStatus,
};

#[test]
fn total_iterations_once_is_none() {
    assert_eq!(ExecutionMode::Once.total_iterations(), None);
}

#[test]
fn total_iterations_repeat_is_count() {
    assert_eq!(ExecutionMode::Repeat { count: 5 }.total_iterations(), Some(5));
}

#[test]
fn default_is_once() {
    let mode = ExecutionMode::default();
    assert_eq!(mode, ExecutionMode::Once);
}

#[test]
fn source_display() {
    assert_eq!(ExecutionSource::Simulation.display_name(), "Simulation");
    assert_eq!(ExecutionSource::Hardware.display_name(), "Hardware");
}

#[test]
fn session_starts_at_iteration_one() {
    assert_eq!(default_iteration(), 1);
}

#[test]
fn terminal_and_active_statuses() {
    for s in [SessionStatus::Completed, SessionStatus::Cancelled, SessionStatus::Failed] {
        assert!(s.is_terminal());
        assert!(!s.is_active());
    }
    assert!(SessionStatus::Running.is_active());
    assert!(SessionStatus::Paused.is_active());
    assert!(!SessionStatus::Ready.is_active());
    assert!(!SessionStatus::Ready.is_terminal());
}

#[test]
fn status_pause_resume_only_from_matching_state() {
    assert_eq!(SessionStatus::Running.paused(), SessionStatus::Paused);
    assert_eq!(SessionStatus::Ready.paused(), SessionStatus::Ready);
    assert_eq!(SessionStatus::Paused.resumed(), SessionStatus::Running);
    assert_eq!(SessionStatus::Running.resumed(), SessionStatus::Running);
}

#[test]
fn terminal_status_absorbs_cancel_and_fail() {
    assert_eq!(SessionStatus::Completed.cancelled(), SessionStatus::Completed);
    assert_eq!(SessionStatus::Failed.cancelled(), SessionStatus::Failed);
    assert_eq!(SessionStatus::Cancelled.failed(), SessionStatus::Cancelled);
    assert_eq!(SessionStatus::Running.cancelled(), SessionStatus::Cancelled);
    assert_eq!(SessionStatus::Paused.failed(), SessionStatus::Failed);
}

#[test]
fn projection_of_executor_states() {
    assert_eq!(SessionStatus::from(ExecutionSessionState::Created), SessionStatus::Ready);
    assert_eq!(SessionStatus::from(ExecutionSessionState::Reserved), SessionStatus::Ready);
    assert_eq!(SessionStatus::from(ExecutionSessionState::Dispatched), SessionStatus::Ready);
    assert_eq!(SessionStatus::from(ExecutionSessionState::Running), SessionStatus::Running);
    assert_eq!(SessionStatus::from(ExecutionSessionState::Paused), SessionStatus::Paused);
    assert_eq!(SessionStatus::from(ExecutionSessionState::Completed), SessionStatus::Completed);
    assert_eq!(SessionStatus::from(ExecutionSessionState::Cancelled), SessionStatus::Cancelled);
    assert_eq!(SessionStatus::from(ExecutionSessionState::Failed), SessionStatus::Failed);
}

#[test]
fn executor_state_start_from_dispatch_or_reservation_only() {
    assert_eq!(ExecutionSessionState::Dispatched.started(), Ok(ExecutionSessionState::Running));
    assert_eq!(ExecutionSessionState::Reserved.started(), Ok(ExecutionSessionState::Running));
    assert_eq!(ExecutionSessionState::Created.started(), Err(ExecutionSessionState::Created));
    assert_eq!(ExecutionSessionState::Running.started(), Err(ExecutionSessionState::Running));
}

#[test]
fn executor_state_pause_resume_cancel() {
    assert_eq!(ExecutionSessionState::Running.paused(), ExecutionSessionState::Paused);
    assert_eq!(ExecutionSessionState::Paused.resumed(), ExecutionSessionState::Running);
    assert_eq!(ExecutionSessionState::Created.paused(), ExecutionSessionState::Created);
    assert_eq!(ExecutionSessionState::Running.cancelled(), ExecutionSessionState::Cancelled);
    assert_eq!(ExecutionSessionState::Completed.cancelled(), ExecutionSessionState::Completed);
    assert!(ExecutionSessionState::Failed.is_terminal());
    assert!(ExecutionSessionState::Paused.is_active());
}

#[test]
fn plan_state_terminality() {
    assert!(PlanState::Completed.is_terminal());
    assert!(PlanState::Cancelled.is_terminal());
    assert!(PlanState::Failed.is_terminal());
    assert!(!PlanState::Active.is_terminal());
    assert!(!PlanState::Created.is_terminal());
}
