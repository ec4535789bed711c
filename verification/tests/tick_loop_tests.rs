use thalos_runtime::events::ExecutionLoopError;
use thalos_runtime::lifecycle::{
    Cardinality, ExecutionSessionId, LifecycleChange, LifecycleCommand, LifecycleState,
    SessionRegistry, TickOutcome,
};
use thalos_runtime::tick_loop::{ExecutionLoop, LoopStep};

#[test]
fn loop_decides_before_each_tick() {
    let l = ExecutionLoop::new();
    let id = ExecutionSessionId::new("s1");
    assert_eq!(
        l.before_tick(&id, None),
        Err(ExecutionLoopError::SessionNotFound("s1".to_string()))
    );
    assert_eq!(l.before_tick(&id, Some(&LifecycleState::Running)), Ok(LoopStep::Tick));
    assert_eq!(l.before_tick(&id, Some(&LifecycleState::Paused)), Ok(LoopStep::Wait));
    assert_eq!(l.before_tick(&id, Some(&LifecycleState::Created)), Ok(LoopStep::Wait));
    assert_eq!(l.before_tick(&id, Some(&LifecycleState::Completed)), Ok(LoopStep::Finish));
    assert_eq!(l.before_tick(&id, Some(&LifecycleState::Stopped)), Ok(LoopStep::Finish));
    assert_eq!(
        l.before_tick(&id, Some(&LifecycleState::Faulted("x".to_string()))),
        Ok(LoopStep::Finish)
    );
}

#[test]
fn run_once_session_completes_after_its_first_tick() {
    let id = ExecutionSessionId::new("s1");
    let mut l = ExecutionLoop::new();
    assert!(l.first_tick);
    assert_eq!(
        l.after_tick(&id, Ok(TickOutcome::Success), Some(Cardinality::Once)),
        Ok(LoopStep::CompleteOnce)
    );
    assert!(!l.first_tick);

    let mut l = ExecutionLoop::new();
    assert_eq!(
        l.after_tick(&id, Ok(TickOutcome::Success), Some(Cardinality::Continuous)),
        Ok(LoopStep::Wait)
    );
    // Later ticks no longer look at the cardinality.
    assert_eq!(
        l.after_tick(&id, Ok(TickOutcome::Success), Some(Cardinality::Once)),
        Ok(LoopStep::Wait)
    );
    assert_eq!(l.after_tick(&id, Ok(TickOutcome::Success), None), Ok(LoopStep::Wait));
}

#[test]
fn loop_finishes_on_completion_and_fails_on_errors() {
    let id = ExecutionSessionId::new("s1");
    let mut l = ExecutionLoop::new();
    assert_eq!(
        l.after_tick(&id, Ok(TickOutcome::SessionCompleted), Some(Cardinality::Once)),
        Ok(LoopStep::Finish)
    );
    assert!(l.first_tick);
    assert_eq!(
        l.after_tick(&id, Err("boom".to_string()), Some(Cardinality::Once)),
        Err(ExecutionLoopError::TickFailed("boom".to_string()))
    );
    assert_eq!(
        l.after_tick(&id, Ok(TickOutcome::Preempted), None),
        Err(ExecutionLoopError::SessionNotFound("s1".to_string()))
    );
}

#[test]
fn registry_completes_a_running_session() {
    let mut registry = SessionRegistry::new();
    let id = registry.create_session("prog", Default::default());
    assert!(registry.apply(&id, LifecycleCommand::Complete).is_err());
    registry.apply(&id, LifecycleCommand::Initialize).unwrap();
    registry.apply(&id, LifecycleCommand::Start).unwrap();
    assert_eq!(
        registry.apply(&id, LifecycleCommand::Complete).unwrap(),
        LifecycleChange { previous: LifecycleState::Running, current: LifecycleState::Completed }
    );
    assert_eq!(registry.get(&id).unwrap().lifecycle, LifecycleState::Completed);
}
