use thalos_runtime::plan::{ExecutionMode, ExecutionSource, SessionStatus};
use thalos_runtime::sessions::{SessionData, SessionTable};

/// Plan id, duration in seconds, joint count and robot name.
type Details = (String, f64, usize, String);

fn details(plan: &str) -> Details {
    (plan.to_string(), 2.0, 6, "test_robot".to_string())
}

#[test]
fn register_and_get() {
    let mut table: SessionTable<u64, Details, Vec<f64>> = SessionTable::new();
    let id = table.register(ExecutionSource::Simulation, details("plan-1"), ExecutionMode::Once, 100);
    assert_eq!(id, 1);
    let s = table.get(1).unwrap();
    assert_eq!(s.status, SessionStatus::Running);
    assert_eq!(s.details.0, "plan-1");
    assert_eq!(s.started_at, Some(100));
    assert_eq!(s.iteration, 1);
    assert_eq!(s.total_iterations, None);
}

#[test]
fn complete_with_trace() {
    let mut table: SessionTable<u64, Details, Vec<f64>> = SessionTable::new();
    let id = table.register(ExecutionSource::Hardware, details("plan-2"), ExecutionMode::Once, 5);
    assert!(table.complete_with_status(id, vec![0.0, 1.0], SessionStatus::Completed, 9));
    let s = table.get(id).unwrap();
    assert_eq!(s.status, SessionStatus::Completed);
    assert_eq!(s.completed_at, Some(9));
    assert_eq!(table.get_trace(id).unwrap().len(), 2);
}

#[test]
fn list_returns_most_recent_first() {
    let mut table: SessionTable<u64, Details, ()> = SessionTable::new();
    table.register(ExecutionSource::Simulation, details("p1"), ExecutionMode::Once, 0);
    table.register(ExecutionSource::Simulation, details("p2"), ExecutionMode::Once, 0);
    let list = table.list_ids();
    assert_eq!(list, vec![2, 1]);
}

#[test]
fn repeat_session_carries_total_iterations() {
    let mut table: SessionTable<u64, Details, ()> = SessionTable::new();
    let id = table.register(ExecutionSource::Simulation, details("p"), ExecutionMode::Repeat { count: 3 }, 0);
    assert_eq!(table.get(id).unwrap().total_iterations, Some(3));
    assert!(table.set_iteration(id, 2));
    assert_eq!(table.get(id).unwrap().iteration, 2);
    assert!(!table.set_iteration(99, 2));
}

#[test]
fn terminal_status_stamps_completion() {
    let mut table: SessionTable<u64, Details, ()> = SessionTable::new();
    let id = table.register(ExecutionSource::Simulation, details("p"), ExecutionMode::Once, 0);
    assert!(table.set_status(id, SessionStatus::Paused, 3));
    assert_eq!(table.get(id).unwrap().completed_at, None);
    assert!(table.set_status(id, SessionStatus::Cancelled, 4));
    assert_eq!(table.get(id).unwrap().completed_at, Some(4));
    assert!(!table.set_status(42, SessionStatus::Failed, 5));
}

#[test]
fn loaded_sessions_continue_numbering() {
    let loaded = vec![
        SessionData {
            id: 7,
            details: details("a"),
            source: ExecutionSource::Simulation,
            status: SessionStatus::Completed,
            started_at: None,
            paused_at: None,
            completed_at: None,
            mode: ExecutionMode::Once,
            iteration: 1,
            total_iterations: None,
        },
        SessionData {
            id: 3,
            details: details("b"),
            source: ExecutionSource::Hardware,
            status: SessionStatus::Failed,
            started_at: None,
            paused_at: None,
            completed_at: None,
            mode: ExecutionMode::Once,
            iteration: 1,
            total_iterations: None,
        },
    ];
    let mut table: SessionTable<u64, Details, ()> = SessionTable::with_sessions(loaded);
    let id = table.register(ExecutionSource::Simulation, details("c"), ExecutionMode::Once, 0);
    assert_eq!(id, 8);
    assert_eq!(table.list_ids(), vec![8, 7, 3]);
    assert!(table.get_trace(7).is_none());
}
