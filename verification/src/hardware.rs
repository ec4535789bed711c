//! Closed-loop hardware execution: tracking phases, the physical error
//! conditions, the safety timeouts, and the decisions of the closed loop
//! that advances through plan waypoints on observed telemetry alone.
//!
//! Durations are held in whole milliseconds.

use vstd::prelude::*;
use crate::plan::{state_is_terminal, ExecutionSessionState};
use crate::preflight::{
    concat, decimal_string, decimal_text, ExecutionError, ExecutionPreflight, PreflightCheck,
    PreflightCheckKind, PreflightStatus,
};

verus! {

/// Operational state tracking physical convergence against plan waypoints.
#[derive(Debug, Clone, Copy, PartialEq, Eq, Structural)]
pub enum TrackingState {
    Idle,
    AwaitingObservation,
    Tracking,
    WaypointReached,
}

/// Trustworthiness of an observation.
#[derive(Debug, Clone, Copy, PartialEq, Eq, Structural)]
pub enum SignalQuality {
    Nominal,
    Degraded,
    Invalid,
}

/// Physical execution error conditions detected during the closed loop.
#[derive(Debug, PartialEq, Eq)]
pub enum PhysicalExecutionError {
    /// Transport connection lost during execution.
    TransportLost,
    /// Command could not be delivered to transport.
    CommandFailed(String),
    /// No valid observation received within the deadline.
    ObservationTimeout,
    /// Observation received but too old to be used as evidence.
    ObservationStale { age_ms: u64, limit_ms: u64 },
    /// Observation received but flagged as untrustworthy.
    ObservationInvalid { quality: SignalQuality },
    /// Robot received commands but did not converge within deadline.
    TargetNotReached { elapsed_ms: u64, timeout_ms: u64 },
    /// Robot reported an internal fault.
    RobotFault(String),
}

/// Safety timeouts of the hardware executor.
#[derive(Debug, Clone, Copy, PartialEq, Eq, Structural)]
pub struct HardwareSafetyConfig {
    /// Longest wait for a valid observation after dispatching a command.
    pub observation_timeout_ms: u64,
    /// Greatest age of an observation still fresh enough as evidence.
    pub observation_staleness_limit_ms: u64,
    /// Longest wait for the robot to converge to a waypoint.
    pub convergence_timeout_ms: u64,
}

impl Default for HardwareSafetyConfig {
    fn default() -> (c: Self)
        ensures
            c.observation_timeout_ms == 500,
            c.observation_staleness_limit_ms == 1000,
            c.convergence_timeout_ms == 10_000,
    {
        HardwareSafetyConfig {
            observation_timeout_ms: 500,
            observation_staleness_limit_ms: 1000,
            convergence_timeout_ms: 10_000,
        }
    }
}

/// Text of a duration of `ms` milliseconds, as Rust's `Debug` renders a
/// `Duration`: `0ns`, `<ms>ms` below a second, else seconds with the
/// fraction's trailing zeros dropped (`1s`, `1.5s`, `1.005s`).
pub open spec fn duration_text(ms: nat) -> Seq<char> {
    if ms == 0 {
        "0ns"@
    } else if ms < 1000 {
        decimal_text(ms) + "ms"@
    } else if ms % 1000 == 0 {
        decimal_text(ms / 1000) + "s"@
    } else {
        decimal_text(ms / 1000) + "."@ + fraction_text(ms % 1000) + "s"@
    }
}

/// The three decimals of `r` thousandths without trailing zeros.
pub open spec fn fraction_text(r: nat) -> Seq<char> {
    let d1 = r / 100;
    let d2 = (r / 10) % 10;
    let d3 = r % 10;
    if d3 != 0 {
        decimal_text(d1) + decimal_text(d2) + decimal_text(d3)
    } else if d2 != 0 {
        decimal_text(d1) + decimal_text(d2)
    } else {
        decimal_text(d1)
    }
}

fn fraction_string(r: u64) -> (s: String)
    requires
        r < 1000,
    ensures
        s@ == fraction_text(r as nat),
{
    let d1 = decimal_string(r / 100);
    let d2 = decimal_string((r / 10) % 10);
    let d3 = decimal_string(r % 10);
    if r % 10 != 0 {
        let a = concat(d1.as_str(), d2.as_str());
        concat(a.as_str(), d3.as_str())
    } else if (r / 10) % 10 != 0 {
        concat(d1.as_str(), d2.as_str())
    } else {
        d1
    }
}

/// Renders a duration of `ms` milliseconds.
pub fn duration_string(ms: u64) -> (s: String)
    ensures
        s@ == duration_text(ms as nat),
{
    if ms == 0 {
        String::from_str("0ns")
    } else if ms < 1000 {
        concat(decimal_string(ms).as_str(), "ms")
    } else if ms % 1000 == 0 {
        concat(decimal_string(ms / 1000).as_str(), "s")
    } else {
        let a = concat(decimal_string(ms / 1000).as_str(), ".");
        let b = concat(a.as_str(), fraction_string(ms % 1000).as_str());
        concat(b.as_str(), "s")
    }
}

/// Name of a signal quality, as `Debug` renders it.
pub open spec fn quality_text(q: SignalQuality) -> Seq<char> {
    match q {
        SignalQuality::Nominal => "Nominal"@,
        SignalQuality::Degraded => "Degraded"@,
        SignalQuality::Invalid => "Invalid"@,
    }
}

/// Human-readable text of a physical execution error.
pub open spec fn error_text(e: PhysicalExecutionError) -> Seq<char> {
    match e {
        PhysicalExecutionError::TransportLost => "Transport connection lost"@,
        PhysicalExecutionError::CommandFailed(m) => "Command delivery failed: "@ + m@,
        PhysicalExecutionError::ObservationTimeout =>
            "Observation timeout: no valid evidence within deadline"@,
        PhysicalExecutionError::ObservationStale { age_ms, limit_ms } => "Observation stale: age "@
            + duration_text(age_ms as nat) + " exceeds limit "@ + duration_text(limit_ms as nat),
        PhysicalExecutionError::ObservationInvalid { quality } => "Observation invalid: quality "@
            + quality_text(quality),
        PhysicalExecutionError::TargetNotReached { elapsed_ms, timeout_ms } =>
            "Target not reached: elapsed "@ + duration_text(elapsed_ms as nat) + ", timeout "@
            + duration_text(timeout_ms as nat),
        PhysicalExecutionError::RobotFault(r) => "Robot fault: "@ + r@,
    }
}

impl PhysicalExecutionError {
    /// Human-readable text of the error.
    pub fn message(&self) -> (s: String)
        ensures
            s@ == error_text(*self),
    {
        match self {
            PhysicalExecutionError::TransportLost => String::from_str("Transport connection lost"),
            PhysicalExecutionError::CommandFailed(m) => concat(
                "Command delivery failed: ",
                m.as_str(),
            ),
            PhysicalExecutionError::ObservationTimeout => String::from_str(
                "Observation timeout: no valid evidence within deadline",
            ),
            PhysicalExecutionError::ObservationStale { age_ms, limit_ms } => {
                let a = concat("Observation stale: age ", duration_string(*age_ms).as_str());
                let b = concat(a.as_str(), " exceeds limit ");
                concat(b.as_str(), duration_string(*limit_ms).as_str())
            },
            PhysicalExecutionError::ObservationInvalid { quality } => {
                let q = match quality {
                    SignalQuality::Nominal => "Nominal",
                    SignalQuality::Degraded => "Degraded",
                    SignalQuality::Invalid => "Invalid",
                };
                concat("Observation invalid: quality ", q)
            },
            PhysicalExecutionError::TargetNotReached { elapsed_ms, timeout_ms } => {
                let a = concat("Target not reached: elapsed ", duration_string(*elapsed_ms).as_str());
                let b = concat(a.as_str(), ", timeout ");
                concat(b.as_str(), duration_string(*timeout_ms).as_str())
            },
            PhysicalExecutionError::RobotFault(r) => concat("Robot fault: ", r.as_str()),
        }
    }
}

impl PhysicalExecutionError {
    /// A copy of the error.
    pub fn duplicate(&self) -> (r: Self)
        ensures
            r == *self,
    {
        match self {
            PhysicalExecutionError::TransportLost => PhysicalExecutionError::TransportLost,
            PhysicalExecutionError::CommandFailed(m) => PhysicalExecutionError::CommandFailed(
                m.clone(),
            ),
            PhysicalExecutionError::ObservationTimeout => PhysicalExecutionError::ObservationTimeout,
            PhysicalExecutionError::ObservationStale { age_ms, limit_ms } =>
                PhysicalExecutionError::ObservationStale { age_ms: *age_ms, limit_ms: *limit_ms },
            PhysicalExecutionError::ObservationInvalid { quality } =>
                PhysicalExecutionError::ObservationInvalid { quality: *quality },
            PhysicalExecutionError::TargetNotReached { elapsed_ms, timeout_ms } =>
                PhysicalExecutionError::TargetNotReached {
                    elapsed_ms: *elapsed_ms,
                    timeout_ms: *timeout_ms,
                },
            PhysicalExecutionError::RobotFault(r) => PhysicalExecutionError::RobotFault(r.clone()),
        }
    }
}

/// Why the robot link could not deliver a command.
#[derive(Debug, PartialEq, Eq)]
pub enum RobotLinkError {
    Disconnected,
    NotReady,
    Timeout,
    CommunicationFailure(String),
}

/// Whether `e` is the physical error of a command that the link could not
/// deliver for reason `le`: a link that is down or not ready is a lost
/// transport, anything else a failed command.
pub open spec fn is_delivery_failure(le: RobotLinkError, e: PhysicalExecutionError) -> bool {
    match le {
        RobotLinkError::Disconnected | RobotLinkError::NotReady => e
            == PhysicalExecutionError::TransportLost,
        RobotLinkError::Timeout => e matches PhysicalExecutionError::CommandFailed(m) && m@
            == "Transport timeout"@,
        RobotLinkError::CommunicationFailure(m) => e == PhysicalExecutionError::CommandFailed(m),
    }
}

/// The physical error of a command that the link could not deliver.
pub fn command_failure(e: RobotLinkError) -> (r: PhysicalExecutionError)
    ensures
        is_delivery_failure(e, r),
{
    match e {
        RobotLinkError::Disconnected | RobotLinkError::NotReady => PhysicalExecutionError::TransportLost,
        RobotLinkError::Timeout => PhysicalExecutionError::CommandFailed(
            String::from_str("Transport timeout"),
        ),
        RobotLinkError::CommunicationFailure(m) => PhysicalExecutionError::CommandFailed(m),
    }
}

/// An observation received from the robot, reduced to what tracking
/// reads: its signal quality, and whether every joint position lies within
/// the position tolerance of the current target waypoint.
#[derive(Debug, Clone, Copy, PartialEq, Eq, Structural)]
pub struct ObservationSummary {
    pub quality: SignalQuality,
    pub within_tolerance: bool,
}

/// What the driver gathered for one tick of a running session.
#[derive(Debug, Clone, Copy, PartialEq, Eq, Structural)]
pub struct TickInput {
    /// Whether the transport is connected.
    pub transport_connected: bool,
    /// The observation taken from the transport this tick, if any.
    pub received: Option<ObservationSummary>,
    /// Age of the held observation: the time since it was received.
    pub observation_age_ms: u64,
    /// Time since the current waypoint was dispatched.
    pub since_dispatch_ms: u64,
}

/// What the driver does after a tick.
#[derive(Debug, PartialEq, Eq)]
pub enum TickStep {
    /// Nothing to send.
    Continue,
    /// Send the waypoint at this index, then report with `dispatched`.
    Dispatch(usize),
    /// The last waypoint was reached: the plan is complete.
    Completed,
    /// A safety condition faulted the session.
    Fault(PhysicalExecutionError),
}

/// Decisions of the closed hardware loop: which waypoint is the target,
/// whether an observation counts as evidence, when the robot has converged,
/// and when a safety condition faults the session. The driver owns the
/// transport, the clock and the joint positions; it sends the waypoints this
/// tracker names and reports back what it observed.
#[derive(Debug, PartialEq, Eq)]
pub struct HardwareTracker {
    pub waypoint_count: usize,
    pub current_waypoint_idx: usize,
    pub state: ExecutionSessionState,
    pub tracking_state: TrackingState,
    pub safety: HardwareSafetyConfig,
    /// The fault that failed the session, if any.
    pub fault: Option<PhysicalExecutionError>,
    /// The last observation received since the current waypoint was
    /// dispatched.
    pub last_observation: Option<ObservationSummary>,
    /// The last observation when it was usable evidence at the latest tick.
    pub current_evidence: Option<ObservationSummary>,
}

/// An observation is usable evidence when it is fresh enough and not
/// flagged invalid.
pub open spec fn usable_evidence(o: ObservationSummary, age_ms: u64, limit_ms: u64) -> bool {
    age_ms <= limit_ms && o.quality != SignalQuality::Invalid
}

/// The tracker after faulting with `e`.
pub open spec fn failed_with(t: HardwareTracker, e: PhysicalExecutionError) -> HardwareTracker {
    HardwareTracker {
        state: ExecutionSessionState::Failed,
        tracking_state: TrackingState::Idle,
        fault: Some(e),
        ..t
    }
}

/// The tracker and the driver's next step after one tick.
pub open spec fn tick_result(t: HardwareTracker, i: TickInput) -> (HardwareTracker, TickStep) {
    if !(t.state is Running) {
        (t, TickStep::Continue)
    } else if !i.transport_connected {
        (
            failed_with(t, PhysicalExecutionError::TransportLost),
            TickStep::Fault(PhysicalExecutionError::TransportLost),
        )
    } else {
        let held = if i.received is Some {
            i.received
        } else {
            t.last_observation
        };
        let evidence = match held {
            Some(o) => if usable_evidence(
                o,
                i.observation_age_ms,
                t.safety.observation_staleness_limit_ms,
            ) {
                Some(o)
            } else {
                None
            },
            None => None,
        };
        let t1 = HardwareTracker { last_observation: held, current_evidence: evidence, ..t };
        if t.tracking_state is AwaitingObservation && i.since_dispatch_ms
            > t.safety.observation_timeout_ms {
            (
                failed_with(t1, PhysicalExecutionError::ObservationTimeout),
                TickStep::Fault(PhysicalExecutionError::ObservationTimeout),
            )
        } else {
            match evidence {
                Some(o) => if o.within_tolerance {
                    let next = (t.current_waypoint_idx + 1) as usize;
                    if next >= t.waypoint_count {
                        (
                            HardwareTracker {
                                current_waypoint_idx: next,
                                state: ExecutionSessionState::Completed,
                                tracking_state: TrackingState::Idle,
                                ..t1
                            },
                            TickStep::Completed,
                        )
                    } else {
                        (
                            HardwareTracker {
                                current_waypoint_idx: next,
                                tracking_state: TrackingState::WaypointReached,
                                ..t1
                            },
                            TickStep::Dispatch(next),
                        )
                    }
                } else if i.since_dispatch_ms > t.safety.convergence_timeout_ms {
                    let e = PhysicalExecutionError::TargetNotReached {
                        elapsed_ms: i.since_dispatch_ms,
                        timeout_ms: t.safety.convergence_timeout_ms,
                    };
                    (failed_with(t1, e), TickStep::Fault(e))
                } else {
                    (HardwareTracker { tracking_state: TrackingState::Tracking, ..t1 }, TickStep::Continue)
                },
                None => (
                    HardwareTracker { tracking_state: TrackingState::AwaitingObservation, ..t1 },
                    TickStep::Continue,
                ),
            }
        }
    }
}

/// The tracker once the current waypoint was delivered: it awaits a fresh
/// observation.
pub open spec fn awaiting(t: HardwareTracker) -> HardwareTracker {
    HardwareTracker {
        tracking_state: TrackingState::AwaitingObservation,
        last_observation: None,
        current_evidence: None,
        ..t
    }
}

/// The preflight of a refused start: one failed transport check saying
/// `msg`.
pub open spec fn refused_for(p: ExecutionPreflight, msg: Seq<char>) -> bool {
    &&& p.checks@.len() == 1
    &&& p.checks@[0].kind == PreflightCheckKind::Transport
    &&& p.checks@[0].status == PreflightStatus::Failed
    &&& p.checks@[0].message matches Some(m) && m@ == msg
    &&& !p.can_dispatch
}

/// The tracker after a pause request.
pub open spec fn paused(t: HardwareTracker) -> HardwareTracker {
    if t.state is Running {
        HardwareTracker { state: ExecutionSessionState::Paused, ..t }
    } else {
        t
    }
}

/// The tracker after a resume request.
pub open spec fn resumed(t: HardwareTracker) -> HardwareTracker {
    if t.state is Paused {
        HardwareTracker { state: ExecutionSessionState::Running, ..t }
    } else {
        t
    }
}

/// The tracker after a cancel request.
pub open spec fn cancelled(t: HardwareTracker) -> HardwareTracker {
    if !state_is_terminal(t.state) {
        HardwareTracker { state: ExecutionSessionState::Cancelled, ..t }
    } else {
        t
    }
}

impl HardwareTracker {
    /// Structural invariant: the target index never passes the end, and a
    /// running or paused session has a waypoint to track.
    pub open spec fn wf(&self) -> bool {
        &&& self.current_waypoint_idx <= self.waypoint_count
        &&& (self.state is Running || self.state is Paused) ==> self.current_waypoint_idx
            < self.waypoint_count
    }

    /// A tracker for a plan of `waypoint_count` waypoints, dispatched and not
    /// started, with the default safety timeouts.
    pub fn new(waypoint_count: usize) -> (t: Self)
        ensures
            t.wf(),
            t.waypoint_count == waypoint_count,
            t.current_waypoint_idx == 0,
            t.state == ExecutionSessionState::Dispatched,
            t.tracking_state == TrackingState::Idle,
            t.safety == (HardwareSafetyConfig {
                observation_timeout_ms: 500,
                observation_staleness_limit_ms: 1000,
                convergence_timeout_ms: 10_000,
            }),
            t.fault is None,
            t.last_observation is None,
            t.current_evidence is None,
    {
        HardwareTracker {
            waypoint_count,
            current_waypoint_idx: 0,
            state: ExecutionSessionState::Dispatched,
            tracking_state: TrackingState::Idle,
            safety: HardwareSafetyConfig::default(),
            fault: None,
            last_observation: None,
            current_evidence: None,
        }
    }

    /// The same tracker with other safety timeouts.
    pub fn with_safety(self, safety: HardwareSafetyConfig) -> (t: Self)
        ensures
            t == (HardwareTracker { safety, ..self }),
    {
        HardwareTracker { safety, ..self }
    }

    /// Faults the session with `e`.
    fn fail(&mut self, e: PhysicalExecutionError)
        ensures
            *final(self) == failed_with(*old(self), e),
    {
        self.state = ExecutionSessionState::Failed;
        self.tracking_state = TrackingState::Idle;
        self.fault = Some(e);
    }

    /// Whether `obs`, received `age_ms` ago, may serve as evidence: a stale
    /// observation is refused first, then one flagged invalid.
    pub fn validate_observation(&self, obs: ObservationSummary, age_ms: u64) -> (r: Result<
        (),
        PhysicalExecutionError,
    >)
        ensures
            age_ms > self.safety.observation_staleness_limit_ms ==> r == Err::<
                (),
                PhysicalExecutionError,
            >(
                PhysicalExecutionError::ObservationStale {
                    age_ms,
                    limit_ms: self.safety.observation_staleness_limit_ms,
                },
            ),
            age_ms <= self.safety.observation_staleness_limit_ms && obs.quality
                == SignalQuality::Invalid ==> r == Err::<(), PhysicalExecutionError>(
                PhysicalExecutionError::ObservationInvalid { quality: obs.quality },
            ),
            r is Ok <==> usable_evidence(obs, age_ms, self.safety.observation_staleness_limit_ms),
    {
        if age_ms > self.safety.observation_staleness_limit_ms {
            return Err(
                PhysicalExecutionError::ObservationStale {
                    age_ms,
                    limit_ms: self.safety.observation_staleness_limit_ms,
                },
            );
        }
        if obs.quality == SignalQuality::Invalid {
            return Err(PhysicalExecutionError::ObservationInvalid { quality: obs.quality });
        }
        Ok(())
    }

    /// One tick of a running session: takes the received observation as the
    /// held one, uses it as evidence when it is usable, faults on a lost
    /// transport or an overdue observation, advances to the next waypoint
    /// once the robot is within tolerance of the target, and faults when it
    /// does not converge in time. A session that is not running is left
    /// alone.
    pub fn tick(&mut self, input: TickInput) -> (r: TickStep)
        requires
            old(self).wf(),
        ensures
            (*final(self), r) == tick_result(*old(self), input),
            final(self).wf(),
    {
        if self.state != ExecutionSessionState::Running {
            return TickStep::Continue;
        }
        if !input.transport_connected {
            self.fail(PhysicalExecutionError::TransportLost);
            return TickStep::Fault(PhysicalExecutionError::TransportLost);
        }
        if input.received.is_some() {
            self.last_observation = input.received;
        }
        self.current_evidence = None;
        if let Some(obs) = self.last_observation {
            if self.validate_observation(obs, input.observation_age_ms).is_ok() {
                self.current_evidence = Some(obs);
            }
        }
        if self.tracking_state == TrackingState::AwaitingObservation && input.since_dispatch_ms
            > self.safety.observation_timeout_ms {
            self.fail(PhysicalExecutionError::ObservationTimeout);
            return TickStep::Fault(PhysicalExecutionError::ObservationTimeout);
        }
        match self.current_evidence {
            Some(evidence) => {
                if evidence.within_tolerance {
                    self.current_waypoint_idx = self.current_waypoint_idx + 1;
                    if self.current_waypoint_idx >= self.waypoint_count {
                        self.state = ExecutionSessionState::Completed;
                        self.tracking_state = TrackingState::Idle;
                        TickStep::Completed
                    } else {
                        self.tracking_state = TrackingState::WaypointReached;
                        TickStep::Dispatch(self.current_waypoint_idx)
                    }
                } else {
                    self.tracking_state = TrackingState::Tracking;
                    if input.since_dispatch_ms > self.safety.convergence_timeout_ms {
                        let e = PhysicalExecutionError::TargetNotReached {
                            elapsed_ms: input.since_dispatch_ms,
                            timeout_ms: self.safety.convergence_timeout_ms,
                        };
                        self.fail(e.duplicate());
                        TickStep::Fault(e)
                    } else {
                        TickStep::Continue
                    }
                }
            },
            None => {
                self.tracking_state = TrackingState::AwaitingObservation;
                TickStep::Continue
            },
        }
    }

    /// Records the outcome of sending the current waypoint: on delivery the
    /// tracker awaits a fresh observation; a failed delivery faults the
    /// session with the matching physical error, which is returned.
    pub fn dispatched(&mut self, sent: Result<(), RobotLinkError>) -> (r: Result<
        (),
        PhysicalExecutionError,
    >)
        requires
            old(self).wf(),
        ensures
            final(self).wf(),
            match sent {
                Ok(()) => r is Ok && *final(self) == awaiting(*old(self)),
                Err(le) => r matches Err(e) && is_delivery_failure(le, e) && *final(self)
                    == failed_with(*old(self), e),
            },
    {
        match sent {
            Ok(()) => {
                self.tracking_state = TrackingState::AwaitingObservation;
                self.last_observation = None;
                self.current_evidence = None;
                Ok(())
            },
            Err(le) => {
                let e = command_failure(le);
                self.fail(e.duplicate());
                Err(e)
            },
        }
    }

    /// Starts a dispatched or reserved session over a connected transport.
    /// `Ok(i)`: send waypoint `i` (the first), then report with
    /// `dispatched`. A plan without waypoints has nothing to send and fails.
    pub fn start(&mut self, transport_connected: bool) -> (r: Result<usize, ExecutionError>)
        requires
            old(self).wf(),
        ensures
            final(self).wf(),
            !(old(self).state is Dispatched || old(self).state is Reserved) ==> r == Err::<
                usize,
                ExecutionError,
            >(ExecutionError::InvalidSessionState(old(self).state)) && *final(self) == *old(self),
            (old(self).state is Dispatched || old(self).state is Reserved) && !transport_connected
                ==> *final(self) == *old(self) && (r matches Err(
                ExecutionError::PreflightFailed(p),
            ) && refused_for(p, "Transport is not connected"@)),
            (old(self).state is Dispatched || old(self).state is Reserved) && transport_connected
                && old(self).waypoint_count == 0 ==> (r matches Err(
                ExecutionError::PreflightFailed(p),
            ) && (final(self).fault matches Some(e) && (e matches PhysicalExecutionError::RobotFault(
                m,
            ) && m@ == "No waypoint at index 0"@ && refused_for(
                p,
                "Failed to dispatch first waypoint: "@ + error_text(e),
            ) && *final(self) == failed_with(
                HardwareTracker { current_waypoint_idx: 0, ..*old(self) },
                e,
            )))),
            (old(self).state is Dispatched || old(self).state is Reserved) && transport_connected
                && old(self).waypoint_count > 0 ==> r == Ok::<usize, ExecutionError>(0)
                && *final(self) == (HardwareTracker {
                state: ExecutionSessionState::Running,
                current_waypoint_idx: 0,
                fault: None,
                ..*old(self)
            }),
    {
        if !(self.state == ExecutionSessionState::Dispatched || self.state
            == ExecutionSessionState::Reserved) {
            return Err(ExecutionError::InvalidSessionState(self.state));
        }
        if !transport_connected {
            let check = PreflightCheck::fail(
                PreflightCheckKind::Transport,
                String::from_str("Transport is not connected"),
            );
            return Err(ExecutionError::PreflightFailed(ExecutionPreflight::new(vec![check])));
        }
        self.state = ExecutionSessionState::Running;
        self.current_waypoint_idx = 0;
        self.fault = None;
        if self.waypoint_count == 0 {
            let e = PhysicalExecutionError::RobotFault(String::from_str("No waypoint at index 0"));
            let refusal = first_dispatch_refusal(&e);
            self.fail(e);
            return Err(refusal);
        }
        Ok(0)
    }

    /// Pauses a running session; true when the robot must be told to stop.
    pub fn pause(&mut self) -> (stop: bool)
        ensures
            stop == (old(self).state is Running),
            *final(self) == paused(*old(self)),
    {
        if self.state == ExecutionSessionState::Running {
            self.state = ExecutionSessionState::Paused;
            true
        } else {
            false
        }
    }

    /// Resumes a paused session. `Some(i)`: send waypoint `i`, the current
    /// target, again, then report with `dispatched`.
    pub fn resume(&mut self) -> (r: Option<usize>)
        ensures
            *final(self) == resumed(*old(self)),
            old(self).state is Paused ==> r == Some(old(self).current_waypoint_idx),
            !(old(self).state is Paused) ==> r is None,
    {
        if self.state == ExecutionSessionState::Paused {
            self.state = ExecutionSessionState::Running;
            Some(self.current_waypoint_idx)
        } else {
            None
        }
    }

    /// Cancels a session that has not ended; true when the robot must be
    /// told to stop.
    pub fn cancel(&mut self) -> (stop: bool)
        ensures
            stop == !state_is_terminal(old(self).state),
            *final(self) == cancelled(*old(self)),
    {
        if !self.state.is_terminal() {
            self.state = ExecutionSessionState::Cancelled;
            true
        } else {
            false
        }
    }

    /// Progress as `(done, of)`: complete for an ended session or an empty
    /// plan, else the waypoints reached of all.
    pub fn progress_ratio(&self) -> (r: (usize, usize))
        ensures
            state_is_terminal(self.state) || self.waypoint_count == 0 ==> r == (1usize, 1usize),
            !(state_is_terminal(self.state) || self.waypoint_count == 0) ==> r == (
                self.current_waypoint_idx,
                self.waypoint_count,
            ),
    {
        if self.state.is_terminal() || self.waypoint_count == 0 {
            (1, 1)
        } else {
            (self.current_waypoint_idx, self.waypoint_count)
        }
    }
}

/// The refusal of a start whose first waypoint could not be sent.
pub fn first_dispatch_refusal(e: &PhysicalExecutionError) -> (r: ExecutionError)
    ensures
        r matches ExecutionError::PreflightFailed(p) && refused_for(
            p,
            "Failed to dispatch first waypoint: "@ + error_text(*e),
        ),
{
    let msg = concat("Failed to dispatch first waypoint: ", e.message().as_str());
    let check = PreflightCheck::fail(PreflightCheckKind::Transport, msg);
    ExecutionError::PreflightFailed(ExecutionPreflight::new(vec![check]))
}


/// Law: one tick moves the target by at most one waypoint and never back;
/// it moves only onto evidence that is fresh, not flagged invalid and within
/// tolerance, which is the observation received in that tick or else the one
/// held since the last dispatch.
pub proof fn lemma_advance_needs_evidence(t: HardwareTracker, i: TickInput)
    requires
        t.wf(),
    ensures
        tick_result(t, i).0.current_waypoint_idx == t.current_waypoint_idx
            || tick_result(t, i).0.current_waypoint_idx == t.current_waypoint_idx + 1,
        tick_result(t, i).0.current_waypoint_idx == t.current_waypoint_idx + 1 ==> {
            &&& t.state is Running
            &&& i.transport_connected
            &&& tick_result(t, i).0.current_evidence matches Some(o) && o.within_tolerance
                && usable_evidence(o, i.observation_age_ms, t.safety.observation_staleness_limit_ms)
                && (i.received == Some(o) || (i.received is None && t.last_observation == Some(o)))
        },
{
}

/// Law: a tick that asks the driver to send a waypoint names the tracker's
/// new target, the waypoint right after the one just reached, and that
/// waypoint exists; the target only moves on by a tick that dispatches it
/// or completes the plan.
pub proof fn lemma_dispatch_names_new_target(t: HardwareTracker, i: TickInput)
    requires
        t.wf(),
    ensures
        tick_result(t, i).1 matches TickStep::Dispatch(k) ==> {
            &&& k == tick_result(t, i).0.current_waypoint_idx
            &&& k == t.current_waypoint_idx + 1
            &&& k < t.waypoint_count
        },
        tick_result(t, i).0.current_waypoint_idx != t.current_waypoint_idx ==> (tick_result(
            t,
            i,
        ).1 matches TickStep::Dispatch(k) && k == tick_result(t, i).0.current_waypoint_idx) || tick_result(t, i).1 is Completed,
{
}

/// Law: a tick completes the plan exactly when it reaches the last
/// waypoint; a completed tracker has passed every waypoint.
pub proof fn lemma_completion_at_last_waypoint(t: HardwareTracker, i: TickInput)
    requires
        t.wf(),
    ensures
        tick_result(t, i).1 is Completed <==> (t.state is Running && tick_result(t, i).0.state
            is Completed),
        tick_result(t, i).1 is Completed ==> tick_result(t, i).0.current_waypoint_idx
            == t.waypoint_count && t.current_waypoint_idx + 1 == t.waypoint_count,
{
}

/// Law: every fault fails the session, records the fault and stops
/// tracking, without moving the target.
pub proof fn lemma_fault_fails_session(t: HardwareTracker, i: TickInput)
    requires
        t.wf(),
    ensures
        tick_result(t, i).1 matches TickStep::Fault(e) ==> {
            &&& tick_result(t, i).0.state is Failed
            &&& tick_result(t, i).0.fault == Some(e)
            &&& tick_result(t, i).0.tracking_state is Idle
            &&& tick_result(t, i).0.current_waypoint_idx == t.current_waypoint_idx
        },
{
}

/// Law: an ended session stays as it is, whatever is asked of it; a
/// session that is not running is left alone by ticks.
pub proof fn lemma_ended_sessions_stay(t: HardwareTracker, i: TickInput)
    ensures
        !(t.state is Running) ==> tick_result(t, i) == (t, TickStep::Continue),
        state_is_terminal(t.state) ==> paused(t) == t && resumed(t) == t && cancelled(t) == t,
{
}

} // verus!
