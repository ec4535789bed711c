use thalos_runtime::hardware::{
    command_failure, duration_string, first_dispatch_refusal, HardwareSafetyConfig, HardwareTracker,
    ObservationSummary, PhysicalExecutionError, RobotLinkError, SignalQuality, TickInput,
    TickStep, TrackingState,
};
use thalos_runtime::plan::ExecutionSessionState;
use thalos_runtime::preflight::{ExecutionError, PreflightCheckKind, PreflightStatus};

/// What the rig sent to the robot.
#[derive(Debug, Clone, PartialEq)]
enum Sent {
    MoveJoints(Vec<f64>),
    Stop,
}

/// A closed-loop driver around the tracker with a scripted robot link and
/// a manual clock in milliseconds.
struct Rig {
    tracker: HardwareTracker,
    waypoints: Vec<Vec<f64>>,
    tolerance: f64,
    connected: bool,
    fail_send: bool,
    sent: Vec<Sent>,
    inbox: Vec<(Vec<f64>, SignalQuality)>,
    held_positions: Option<Vec<f64>>,
    now_ms: u64,
    observed_at_ms: u64,
    dispatched_at_ms: u64,
}

impl Rig {
    fn new(waypoints: Vec<Vec<f64>>, safety: HardwareSafetyConfig) -> Self {
        let tracker = HardwareTracker::new(waypoints.len()).with_safety(safety);
        Rig {
            tracker,
            waypoints,
            tolerance: 0.05,
            connected: true,
            fail_send: false,
            sent: Vec::new(),
            inbox: Vec::new(),
            held_positions: None,
            now_ms: 0,
            observed_at_ms: 0,
            dispatched_at_ms: 0,
        }
    }

    fn send_waypoint(&mut self, i: usize) -> Result<(), PhysicalExecutionError> {
        let outcome = if self.fail_send {
            Err(RobotLinkError::CommunicationFailure("link refused".to_string()))
        } else {
            self.sent.push(Sent::MoveJoints(self.waypoints[i].clone()));
            Ok(())
        };
        let delivered = outcome.is_ok();
        let r = self.tracker.dispatched(outcome);
        if delivered {
            self.held_positions = None;
            self.dispatched_at_ms = self.now_ms;
        }
        r
    }

    fn start(&mut self) -> Result<(), ExecutionError> {
        let i = self.tracker.start(self.connected)?;
        self.send_waypoint(i).map_err(|e| first_dispatch_refusal(&e))
    }

    fn push_observation(&mut self, positions: Vec<f64>, quality: SignalQuality) {
        self.inbox.push((positions, quality));
    }

    fn within(&self, positions: &[f64]) -> bool {
        let target = &self.waypoints[self.tracker.current_waypoint_idx];
        target.iter().zip(positions).map(|(t, o)| (t - o).abs()).fold(0.0f64, f64::max)
            <= self.tolerance
    }

    fn tick(&mut self, elapsed_ms: u64) -> Result<(), PhysicalExecutionError> {
        self.now_ms += elapsed_ms;
        let mut received = None;
        if self.tracker.state == ExecutionSessionState::Running && self.connected {
            if let Some((positions, quality)) = self.inbox.pop() {
                received = Some(ObservationSummary {
                    quality,
                    within_tolerance: self.within(&positions),
                });
                self.held_positions = Some(positions);
                self.observed_at_ms = self.now_ms;
            }
        }
        let input = TickInput {
            transport_connected: self.connected,
            received,
            observation_age_ms: self.now_ms - self.observed_at_ms,
            since_dispatch_ms: self.now_ms - self.dispatched_at_ms,
        };
        match self.tracker.tick(input) {
            TickStep::Continue | TickStep::Completed => Ok(()),
            TickStep::Dispatch(i) => self.send_waypoint(i),
            TickStep::Fault(e) => Err(e),
        }
    }

    fn cancel(&mut self) {
        if self.tracker.cancel() {
            self.sent.push(Sent::Stop);
        }
    }

    fn progress(&self) -> f64 {
        let (done, of) = self.tracker.progress_ratio();
        done as f64 / of as f64
    }
}

fn default_safety() -> HardwareSafetyConfig {
    HardwareSafetyConfig {
        observation_timeout_ms: 500,
        observation_staleness_limit_ms: 1000,
        convergence_timeout_ms: 5000,
    }
}

#[test]
fn test_hardware_executor_lifecycle_with_fake_transport() {
    let waypoints = vec![vec![0.5, 0.2, 0.0], vec![1.0, 0.5, -0.2]];
    let mut rig = Rig::new(waypoints, default_safety());
    assert_eq!(rig.tracker.state, ExecutionSessionState::Dispatched);

    rig.start().unwrap();
    assert_eq!(rig.tracker.state, ExecutionSessionState::Running);
    assert_eq!(rig.sent.len(), 1);
    assert_eq!(rig.tracker.current_waypoint_idx, 0);

    rig.tick(100).unwrap();
    assert_eq!(rig.progress(), 0.0);
    assert_eq!(rig.tracker.tracking_state, TrackingState::AwaitingObservation);

    rig.push_observation(vec![0.5, 0.2, 0.0], SignalQuality::Nominal);
    rig.tick(100).unwrap();
    assert_eq!(rig.tracker.current_waypoint_idx, 1);
    assert_eq!(rig.sent.len(), 2);

    rig.push_observation(vec![1.0, 0.5, -0.2], SignalQuality::Nominal);
    rig.tick(100).unwrap();
    assert_eq!(rig.tracker.state, ExecutionSessionState::Completed);
    assert_eq!(rig.progress(), 1.0);
}

#[test]
fn test_hardware_executor_out_of_tolerance_does_not_advance() {
    let mut rig = Rig::new(vec![vec![1.0, 1.0, 1.0]], default_safety());
    rig.start().unwrap();
    rig.push_observation(vec![0.5, 0.5, 0.5], SignalQuality::Nominal);
    rig.tick(100).unwrap();
    assert_eq!(rig.tracker.state, ExecutionSessionState::Running);
    assert_eq!(rig.tracker.current_waypoint_idx, 0);
    assert_eq!(rig.tracker.tracking_state, TrackingState::Tracking);
}

#[test]
fn test_hardware_executor_cancel_stops_transport() {
    let mut rig = Rig::new(vec![vec![1.0, 1.0, 1.0]], HardwareSafetyConfig::default());
    rig.start().unwrap();
    rig.cancel();
    assert_eq!(rig.tracker.state, ExecutionSessionState::Cancelled);
    assert_eq!(rig.sent.last(), Some(&Sent::Stop));
}

#[test]
fn test_transport_lost_faults_session() {
    let mut rig = Rig::new(vec![vec![0.5, 0.2, 0.0]], HardwareSafetyConfig::default());
    rig.start().unwrap();
    rig.connected = false;
    let result = rig.tick(100);
    assert!(result.is_err());
    assert_eq!(rig.tracker.state, ExecutionSessionState::Failed);
    assert!(matches!(result.unwrap_err(), PhysicalExecutionError::TransportLost));
}

#[test]
fn test_observation_timeout_faults_session() {
    let safety = HardwareSafetyConfig { observation_timeout_ms: 100, ..default_safety() };
    let mut rig = Rig::new(vec![vec![0.5, 0.2, 0.0]], safety);
    rig.start().unwrap();
    let result = rig.tick(150);
    assert!(result.is_err());
    assert_eq!(rig.tracker.state, ExecutionSessionState::Failed);
    assert!(matches!(result.unwrap_err(), PhysicalExecutionError::ObservationTimeout));
}

#[test]
fn test_invalid_observation_not_used_as_evidence() {
    let mut rig = Rig::new(vec![vec![0.5, 0.2, 0.0]], HardwareSafetyConfig::default());
    rig.start().unwrap();
    rig.push_observation(vec![0.5, 0.2, 0.0], SignalQuality::Invalid);
    rig.tick(100).unwrap();
    assert_eq!(rig.tracker.current_waypoint_idx, 0);
    assert_eq!(rig.tracker.tracking_state, TrackingState::AwaitingObservation);
}

#[test]
fn test_convergence_timeout_faults_session() {
    let safety = HardwareSafetyConfig { convergence_timeout_ms: 100, ..default_safety() };
    let mut rig = Rig::new(vec![vec![0.5, 0.2, 0.0]], safety);
    rig.start().unwrap();
    rig.push_observation(vec![0.0, 0.0, 0.0], SignalQuality::Nominal);
    let result = rig.tick(150);
    assert!(result.is_err());
    assert_eq!(rig.tracker.state, ExecutionSessionState::Failed);
    assert!(matches!(result.unwrap_err(), PhysicalExecutionError::TargetNotReached { .. }));
}

#[test]
fn test_command_send_failure_faults_session() {
    let waypoints = vec![vec![0.5, 0.2, 0.0], vec![1.0, 0.5, -0.2]];
    let mut rig = Rig::new(waypoints, HardwareSafetyConfig::default());
    rig.fail_send = true;
    let result = rig.start();
    assert!(result.is_err());
    assert_eq!(rig.tracker.state, ExecutionSessionState::Failed);
}

#[test]
fn stale_observation_is_not_evidence_for_the_next_waypoint() {
    let safety = HardwareSafetyConfig { observation_staleness_limit_ms: 50, ..default_safety() };
    let mut rig = Rig::new(vec![vec![0.5, 0.2, 0.0], vec![1.0, 0.5, -0.2]], safety);
    rig.start().unwrap();
    rig.push_observation(vec![0.5, 0.2, 0.0], SignalQuality::Nominal);
    rig.tick(10).unwrap();
    assert_eq!(rig.tracker.current_waypoint_idx, 1);
    // An observation at the next target, which then ages past the limit.
    rig.push_observation(vec![1.0, 0.5, -0.2], SignalQuality::Nominal);
    rig.tick(10).unwrap();
    assert_eq!(rig.tracker.state, ExecutionSessionState::Completed);

    let mut rig = Rig::new(vec![vec![0.5, 0.2, 0.0], vec![1.0, 0.5, -0.2]], safety);
    rig.start().unwrap();
    rig.push_observation(vec![0.5, 0.2, 0.0], SignalQuality::Nominal);
    rig.tick(10).unwrap();
    rig.push_observation(vec![0.9, 0.5, -0.2], SignalQuality::Nominal);
    rig.tick(10).unwrap();
    assert_eq!(rig.tracker.tracking_state, TrackingState::Tracking);
    // Held without a fresh one: after 80 ms it is stale, no longer evidence.
    rig.tick(80).unwrap();
    assert_eq!(rig.tracker.current_waypoint_idx, 1);
    assert_eq!(rig.tracker.tracking_state, TrackingState::AwaitingObservation);
    assert_eq!(rig.tracker.current_evidence, None);
}

#[test]
fn start_refusals() {
    let mut rig = Rig::new(vec![vec![0.0]], HardwareSafetyConfig::default());
    rig.connected = false;
    match rig.start() {
        Err(ExecutionError::PreflightFailed(p)) => {
            assert!(!p.can_dispatch);
            assert_eq!(p.checks.len(), 1);
            assert_eq!(p.checks[0].kind, PreflightCheckKind::Transport);
            assert_eq!(p.checks[0].status, PreflightStatus::Failed);
            assert_eq!(p.checks[0].message.as_deref(), Some("Transport is not connected"));
        }
        other => panic!("expected a preflight refusal, got {other:?}"),
    }
    assert_eq!(rig.tracker.state, ExecutionSessionState::Dispatched);

    let mut empty = Rig::new(vec![], HardwareSafetyConfig::default());
    match empty.start() {
        Err(ExecutionError::PreflightFailed(p)) => assert_eq!(
            p.checks[0].message.as_deref(),
            Some("Failed to dispatch first waypoint: Robot fault: No waypoint at index 0")
        ),
        other => panic!("expected a preflight refusal, got {other:?}"),
    }
    assert_eq!(empty.tracker.state, ExecutionSessionState::Failed);

    let mut running = Rig::new(vec![vec![0.0]], HardwareSafetyConfig::default());
    running.start().unwrap();
    assert_eq!(
        running.start(),
        Err(ExecutionError::InvalidSessionState(ExecutionSessionState::Running))
    );

    let mut failing = Rig::new(vec![vec![0.0]], HardwareSafetyConfig::default());
    failing.fail_send = true;
    match failing.start() {
        Err(ExecutionError::PreflightFailed(p)) => assert_eq!(
            p.checks[0].message.as_deref(),
            Some("Failed to dispatch first waypoint: Command delivery failed: link refused")
        ),
        other => panic!("expected a preflight refusal, got {other:?}"),
    }
}

#[test]
fn pause_resume_and_ended_sessions() {
    let mut rig = Rig::new(vec![vec![0.0], vec![1.0]], HardwareSafetyConfig::default());
    assert!(!rig.tracker.pause());
    rig.start().unwrap();
    assert!(rig.tracker.pause());
    assert_eq!(rig.tracker.state, ExecutionSessionState::Paused);
    // A paused session ignores ticks.
    rig.push_observation(vec![0.0], SignalQuality::Nominal);
    rig.tick(10).unwrap();
    assert_eq!(rig.tracker.current_waypoint_idx, 0);
    assert_eq!(rig.tracker.resume(), Some(0));
    assert_eq!(rig.tracker.state, ExecutionSessionState::Running);
    assert_eq!(rig.tracker.resume(), None);
    rig.cancel();
    assert!(!rig.tracker.cancel());
    assert!(!rig.tracker.pause());
    assert_eq!(rig.tracker.resume(), None);
    assert_eq!(rig.tracker.state, ExecutionSessionState::Cancelled);
    assert_eq!(rig.tracker.progress_ratio(), (1, 1));
}

#[test]
fn validation_prefers_staleness_over_quality() {
    let t = HardwareTracker::new(1);
    let invalid = ObservationSummary { quality: SignalQuality::Invalid, within_tolerance: true };
    assert_eq!(
        t.validate_observation(invalid, 1001),
        Err(PhysicalExecutionError::ObservationStale { age_ms: 1001, limit_ms: 1000 })
    );
    assert_eq!(
        t.validate_observation(invalid, 1000),
        Err(PhysicalExecutionError::ObservationInvalid { quality: SignalQuality::Invalid })
    );
    let degraded = ObservationSummary { quality: SignalQuality::Degraded, within_tolerance: false };
    assert_eq!(t.validate_observation(degraded, 0), Ok(()));
}

#[test]
fn link_errors_map_to_physical_errors() {
    assert_eq!(command_failure(RobotLinkError::Disconnected), PhysicalExecutionError::TransportLost);
    assert_eq!(command_failure(RobotLinkError::NotReady), PhysicalExecutionError::TransportLost);
    assert_eq!(
        command_failure(RobotLinkError::Timeout),
        PhysicalExecutionError::CommandFailed("Transport timeout".to_string())
    );
    assert_eq!(
        command_failure(RobotLinkError::CommunicationFailure("bus off".to_string())),
        PhysicalExecutionError::CommandFailed("bus off".to_string())
    );
}

#[test]
fn error_messages_render_durations_like_debug() {
    for ms in [0u64, 1, 150, 999, 1000, 1500, 1005, 1050, 10_000, 61_234] {
        let expected = format!("{:?}", std::time::Duration::from_millis(ms));
        assert_eq!(duration_string(ms), expected, "{ms} ms");
    }
    let stale = PhysicalExecutionError::ObservationStale { age_ms: 1500, limit_ms: 1000 };
    assert_eq!(stale.message(), "Observation stale: age 1.5s exceeds limit 1s");
    let late = PhysicalExecutionError::TargetNotReached { elapsed_ms: 150, timeout_ms: 100 };
    assert_eq!(late.message(), "Target not reached: elapsed 150ms, timeout 100ms");
    assert_eq!(
        PhysicalExecutionError::ObservationInvalid { quality: SignalQuality::Degraded }.message(),
        "Observation invalid: quality Degraded"
    );
    assert_eq!(PhysicalExecutionError::TransportLost.message(), "Transport connection lost");
    assert_eq!(
        PhysicalExecutionError::ObservationTimeout.message(),
        "Observation timeout: no valid evidence within deadline"
    );
    assert_eq!(
        PhysicalExecutionError::RobotFault("overheat".into()).message(),
        "Robot fault: overheat"
    );
}
