use thalos_runtime::lifecycle::{
    condition_met_by, termination_reason_text, Action, Cardinality, ChannelReading, ExecutionConfiguration, ExecutionDomainError, ExecutionSession,
    ExecutionSessionId, LifecycleChange, LifecycleCommand, LifecycleState, SessionRegistry,
    TerminationPolicy, TickOutcome, TickStep,
};

#[test]
fn test_lifecycle_transitions() {
    let mut session = ExecutionSession::new("weld_main", ExecutionConfiguration::default());
    assert_eq!(session.lifecycle, LifecycleState::Created);

    assert!(session.pause().is_err());
    assert!(session.initialize().is_ok());
    assert_eq!(session.lifecycle, LifecycleState::Initializing);

    assert!(session.start().is_ok());
    assert_eq!(session.lifecycle, LifecycleState::Running);

    assert!(session.pause().is_ok());
    assert_eq!(session.lifecycle, LifecycleState::Paused);

    assert!(session.start().is_ok());
    assert_eq!(session.lifecycle, LifecycleState::Running);

    assert!(session.complete().is_ok());
    assert_eq!(session.lifecycle, LifecycleState::Completed);
}

#[test]
fn test_cycle_completion_cardinality() {
    let mut session_once = ExecutionSession::new(
        "test",
        ExecutionConfiguration { cardinality: Cardinality::Once, ..Default::default() },
    );
    assert!(!session_once.complete_program_cycle());

    let mut session_counted = ExecutionSession::new(
        "test",
        ExecutionConfiguration { cardinality: Cardinality::Counted(3), ..Default::default() },
    );
    assert!(session_counted.complete_program_cycle());
    assert!(session_counted.complete_program_cycle());
    assert!(!session_counted.complete_program_cycle());
}

#[test]
fn test_termination_condition_missing_channel() {
    let mut session = ExecutionSession::new(
        "missing_term",
        ExecutionConfiguration {
            termination: TerminationPolicy::Condition("nonexistent_channel".to_string()),
            ..Default::default()
        },
    );
    session.initialize().unwrap();
    session.start().unwrap();

    // The channel is absent from the observations: the condition does not hold.
    let step = session.evaluate_tick(false).unwrap();
    assert_eq!(step, TickStep::Evaluate { index: 1 });
    assert_eq!(session.lifecycle, LifecycleState::Running);
}

#[test]
fn termination_condition_met_completes_session() {
    let mut session = ExecutionSession::new(
        "term",
        ExecutionConfiguration {
            termination: TerminationPolicy::Condition("done".to_string()),
            ..Default::default()
        },
    );
    session.initialize().unwrap();
    session.start().unwrap();
    let step = session.evaluate_tick(false).unwrap();
    assert_eq!(step, TickStep::Evaluate { index: 1 });
    let step = session.evaluate_tick(true).unwrap();
    assert_eq!(
        step,
        TickStep::Terminated {
            index: 2,
            condition: "done".to_string(),
            reason: "Termination condition 'done' satisfied".to_string(),
            action: Action::NoAction,
            outcome: TickOutcome::SessionCompleted,
        }
    );
    assert_eq!(session.lifecycle, LifecycleState::Completed);
    assert_eq!(
        session.history,
        vec![
            LifecycleState::Created,
            LifecycleState::Initializing,
            LifecycleState::Running,
            LifecycleState::Completed,
        ]
    );
}

#[test]
fn condition_ignored_without_condition_policy() {
    let mut session = ExecutionSession::new("plain", ExecutionConfiguration::default());
    session.initialize().unwrap();
    session.start().unwrap();
    assert_eq!(session.evaluate_tick(true).unwrap(), TickStep::Evaluate { index: 1 });
    assert_eq!(session.lifecycle, LifecycleState::Running);
}

#[test]
fn tick_rejected_unless_running() {
    let mut session = ExecutionSession::new("idle", ExecutionConfiguration::default());
    let err = session.evaluate_tick(false).unwrap_err();
    assert_eq!(err.from, LifecycleState::Created);
    assert_eq!(err.to_action, "evaluate_tick");
    assert_eq!(session.state.cycle.tick_count, 0);
}

#[test]
fn rejected_transition_leaves_session_unchanged() {
    let mut session = ExecutionSession::new("p", ExecutionConfiguration::default());
    let err = session.start().unwrap_err();
    assert_eq!(err.from, LifecycleState::Created);
    assert_eq!(err.to_action, "start");
    assert_eq!(session.lifecycle, LifecycleState::Created);
    assert_eq!(session.history, vec![LifecycleState::Created]);
}

#[test]
fn terminal_states_admit_no_transition_but_faults() {
    let mut session = ExecutionSession::new("p", ExecutionConfiguration::default());
    session.initialize().unwrap();
    session.start().unwrap();
    session.stop().unwrap();
    assert!(session.start().is_err());
    assert!(session.pause().is_err());
    assert!(session.complete().is_err());
    assert!(session.fault("late").is_err());
    assert_eq!(session.lifecycle, LifecycleState::Stopped);

    let mut faulted = ExecutionSession::new("q", ExecutionConfiguration::default());
    faulted.fault("boom").unwrap();
    assert_eq!(faulted.lifecycle, LifecycleState::Faulted("boom".to_string()));
    assert!(faulted.fault("again").is_ok());
    assert!(faulted.initialize().is_err());
}

#[test]
fn continuous_cardinality_never_ends_cycles() {
    let mut session = ExecutionSession::new(
        "c",
        ExecutionConfiguration { cardinality: Cardinality::Continuous, ..Default::default() },
    );
    for _ in 0..10 {
        assert!(session.complete_program_cycle());
    }
    assert_eq!(session.state.cycle.current_cycle, 10);
}

#[test]
fn generated_ids_are_prefixed() {
    let id = ExecutionSessionId::generate();
    assert!(id.0.starts_with("exec-"));
    let token: Vec<char> = id.0["exec-".len()..].chars().collect();
    assert_eq!(token.len(), 36);
    for (i, c) in token.iter().enumerate() {
        if [8, 13, 18, 23].contains(&i) {
            assert_eq!(*c, '-');
        } else {
            assert!(c.is_ascii_digit() || ('a'..='f').contains(c), "{c}");
        }
    }
    assert_eq!(token[14], '4');
    assert!(['8', '9', 'a', 'b'].contains(&token[19]));
    assert_ne!(ExecutionSessionId::generate(), id);
    assert_eq!(ExecutionSessionId::new("abc").as_text(), "abc");
}

#[test]
fn registry_applies_commands_and_reports_changes() {
    let mut registry = SessionRegistry::new();
    let id = registry.create_session("prog", ExecutionConfiguration::default());
    assert_eq!(registry.list_sessions(), vec![id.clone()]);
    let change = registry.apply(&id, LifecycleCommand::Initialize).unwrap();
    assert_eq!(
        change,
        LifecycleChange { previous: LifecycleState::Created, current: LifecycleState::Initializing }
    );
    registry.apply(&id, LifecycleCommand::Start).unwrap();
    let step = registry.begin_tick(&id, false).unwrap();
    assert_eq!(step, TickStep::Evaluate { index: 1 });
    assert_eq!(registry.get(&id).unwrap().lifecycle, LifecycleState::Running);
}

#[test]
fn registry_reports_unknown_session() {
    let mut registry = SessionRegistry::new();
    let ghost_id = ExecutionSessionId::new("missing");
    match registry.apply(&ghost_id, LifecycleCommand::Start) {
        Err(ExecutionDomainError::SessionNotFound(id)) => assert_eq!(id, ghost_id),
        other => panic!("expected SessionNotFound, got {other:?}"),
    }
    assert!(registry.get(&ghost_id).is_none());
}

#[test]
fn registry_rejects_tick_of_session_not_running() {
    let mut registry = SessionRegistry::new();
    let id = registry.create_session_with_target("cell-01", "module-a", "prog", ExecutionConfiguration::default());
    let s = registry.get(&id).unwrap();
    assert_eq!(s.station_id.as_deref(), Some("cell-01"));
    assert_eq!(s.robotics_module_id.as_deref(), Some("module-a"));
    match registry.begin_tick(&id, false) {
        Err(ExecutionDomainError::NotRunning(state)) => assert_eq!(state, LifecycleState::Created),
        other => panic!("expected NotRunning, got {other:?}"),
    }
}

#[test]
fn registry_forwards_invalid_transitions() {
    let mut registry = SessionRegistry::new();
    let id = registry.create_session("prog", ExecutionConfiguration::default());
    match registry.apply(&id, LifecycleCommand::Pause) {
        Err(ExecutionDomainError::InvalidLifecycle(e)) => {
            assert_eq!(e.from, LifecycleState::Created);
            assert_eq!(e.to_action, "pause");
        }
        other => panic!("expected InvalidLifecycle, got {other:?}"),
    }
}

fn outcome_of(step: &TickStep) -> TickOutcome {
    match step {
        TickStep::Terminated { outcome, .. } => outcome.clone(),
        TickStep::Evaluate { .. } => TickOutcome::Success,
    }
}

#[test]
fn test_termination_condition_with_boolean_channel() {
    let mut session = ExecutionSession::new(
        "bool_term",
        ExecutionConfiguration {
            termination: TerminationPolicy::Condition("e_stop".to_string()),
            ..Default::default()
        },
    );
    session.initialize().unwrap();
    session.start().unwrap();

    // Boolean false: the session goes on.
    let met = condition_met_by(Some(ChannelReading::Boolean(false)));
    let res = session.evaluate_tick(met).unwrap();
    assert_eq!(outcome_of(&res), TickOutcome::Success);

    // Boolean true: the session terminates.
    let met = condition_met_by(Some(ChannelReading::Boolean(true)));
    let res2 = session.evaluate_tick(met).unwrap();
    assert_eq!(outcome_of(&res2), TickOutcome::SessionCompleted);
}

#[test]
fn test_termination_condition_with_integer_channel() {
    let mut session = ExecutionSession::new(
        "int_term",
        ExecutionConfiguration {
            termination: TerminationPolicy::Condition("error_code".to_string()),
            ..Default::default()
        },
    );
    session.initialize().unwrap();
    session.start().unwrap();

    // error_code = 0: the session goes on.
    let met = condition_met_by(Some(ChannelReading::Integer(0)));
    let res = session.evaluate_tick(met).unwrap();
    assert_eq!(outcome_of(&res), TickOutcome::Success);

    // error_code = 5: the session terminates.
    let met = condition_met_by(Some(ChannelReading::Integer(5)));
    let res2 = session.evaluate_tick(met).unwrap();
    assert_eq!(outcome_of(&res2), TickOutcome::SessionCompleted);
}

#[test]
fn channel_readings_positive_only_above_zero_or_true() {
    assert!(!ChannelReading::Integer(-3).is_positive());
    assert!(!ChannelReading::Integer(0).is_positive());
    assert!(ChannelReading::Integer(1).is_positive());
    assert!(ChannelReading::Boolean(true).is_positive());
    assert!(!ChannelReading::Boolean(false).is_positive());
    assert!(!condition_met_by(None));
}

#[test]
fn termination_reason_names_the_channel() {
    assert_eq!(
        termination_reason_text("safety_stop"),
        "Termination condition 'safety_stop' satisfied"
    );
}
