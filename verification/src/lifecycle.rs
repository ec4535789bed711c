//! The domain `ExecutionSession`: its configuration, its lifecycle state
//! machine, the recorded lifecycle history and the control-tick counters.
//!
//! The float-valued tick context (robot joints, observation values) is not
//! held here: a tick is evaluated in two steps, `evaluate_tick` deciding
//! whether the session terminates on this tick, and the caller then running
//! the program evaluation on its own data.

use vstd::prelude::*;
use std::time::Duration;

verus! {

/// Unique identifier of an execution session.
#[derive(Debug, PartialEq, Eq, Hash)]
pub struct ExecutionSessionId(pub String);

impl Clone for ExecutionSessionId {
    fn clone(&self) -> (r: Self)
        ensures
            r == *self,
    {
        ExecutionSessionId(self.0.clone())
    }
}

/// A lower-case hexadecimal digit.
pub open spec fn is_lower_hex(c: char) -> bool {
    ('0' <= c && c <= '9') || ('a' <= c && c <= 'f')
}

/// The hyphenated lower-case text of a version-4 UUID: 32 hexadecimal
/// digits in groups of 8-4-4-4-12, the version digit `4` opening the third
/// group and one of `8`, `9`, `a`, `b` opening the fourth.
pub open spec fn is_uuid_v4_text(t: Seq<char>) -> bool {
    &&& t.len() == 36
    &&& forall|i: int|
        0 <= i < 36 ==> if i == 8 || i == 13 || i == 18 || i == 23 {
            #[trigger] t[i] == '-'
        } else {
            is_lower_hex(t[i])
        }
    &&& t[14] == '4'
    &&& (t[19] == '8' || t[19] == '9' || t[19] == 'a' || t[19] == 'b')
}

/// `uuid::Uuid::new_v4` rendered with `to_string`: a random version-4 UUID
/// in its hyphenated lower-case form. Which UUID comes out is left open.
#[verifier::external_body]
fn random_session_token() -> (t: String)
    ensures
        is_uuid_v4_text(t@),
{
    uuid::Uuid::new_v4().to_string()
}

impl ExecutionSessionId {
    pub fn new(id: &str) -> (r: Self)
        ensures
            r.0@ == id@,
    {
        ExecutionSessionId(id.to_owned())
    }

    /// A new identifier `exec-<random version-4 UUID>`.
    pub fn generate() -> (r: Self)
        ensures
            exists|t: Seq<char>| is_uuid_v4_text(t) && r.0@ == "exec-"@ + t,
    {
        let token = random_session_token();
        let mut s = String::from_str("exec-");
        let ghost prefix = s@;
        s.append(token.as_str());
        proof {
            reveal_strlit("exec-");
            assert(s@ == "exec-"@ + token@);
        }
        ExecutionSessionId(s)
    }

    /// The identifier's text.
    pub fn as_text(&self) -> (r: String)
        ensures
            r@ == self.0@,
    {
        self.0.clone()
    }
}

/// Environment in which the session is evaluated and executed.
#[derive(Debug, Clone, Copy, PartialEq, Eq, Structural)]
pub enum Environment {
    VirtualSimulation,
    Physical,
    /// Sensor-informed simulation.
    Hybrid,
}

/// Repetition of the program pattern within the session.
#[derive(Debug, Clone, Copy, PartialEq, Eq, Structural)]
pub enum Cardinality {
    Once,
    Counted(u32),
    Continuous,
}

/// Reactivity policy of the runtime towards observations.
#[derive(Debug, Clone, Copy, PartialEq, Eq, Structural)]
pub enum Reactivity {
    Reactive,
    NonReactive,
}

/// Formal termination criterion of the session.
#[derive(Debug, PartialEq, Eq)]
pub enum TerminationPolicy {
    NaturalCompletion,
    /// Terminates once the named observation channel reads a positive value.
    Condition(String),
    UserStop,
    SafetyFault,
    Timeout(Duration),
}

/// Immutable configuration of the four orthogonal session dimensions.
#[derive(Debug, PartialEq, Eq)]
pub struct ExecutionConfiguration {
    pub environment: Environment,
    pub cardinality: Cardinality,
    pub reactivity: Reactivity,
    pub termination: TerminationPolicy,
}

impl Default for ExecutionConfiguration {
    fn default() -> (c: Self)
        ensures
            c.environment == Environment::VirtualSimulation,
            c.cardinality == Cardinality::Once,
            c.reactivity == Reactivity::NonReactive,
            c.termination == TerminationPolicy::NaturalCompletion,
    {
        ExecutionConfiguration {
            environment: Environment::VirtualSimulation,
            cardinality: Cardinality::Once,
            reactivity: Reactivity::NonReactive,
            termination: TerminationPolicy::NaturalCompletion,
        }
    }
}

/// States of the session lifecycle.
#[derive(Debug, PartialEq, Eq)]
pub enum LifecycleState {
    Created,
    Initializing,
    Running,
    Paused,
    Completed,
    Stopped,
    Faulted(String),
}

impl Clone for LifecycleState {
    fn clone(&self) -> (r: Self)
        ensures
            r == *self,
    {
        match self {
            LifecycleState::Created => LifecycleState::Created,
            LifecycleState::Initializing => LifecycleState::Initializing,
            LifecycleState::Running => LifecycleState::Running,
            LifecycleState::Paused => LifecycleState::Paused,
            LifecycleState::Completed => LifecycleState::Completed,
            LifecycleState::Stopped => LifecycleState::Stopped,
            LifecycleState::Faulted(reason) => LifecycleState::Faulted(reason.clone()),
        }
    }
}

/// A state is terminal when the session has finished for good or failed.
pub open spec fn lifecycle_is_terminal(s: LifecycleState) -> bool {
    s is Completed || s is Stopped || s is Faulted
}

/// The transitions the lifecycle admits: the edges of the state machine.
pub open spec fn lifecycle_step(from: LifecycleState, to: LifecycleState) -> bool {
    ||| from is Created && to is Initializing
    ||| (from is Initializing || from is Paused) && to is Running
    ||| from is Running && to is Paused
    ||| (from is Running || from is Paused) && to is Stopped
    ||| !(from is Completed || from is Stopped) && to is Faulted
    ||| from is Running && to is Completed
}

impl LifecycleState {
    pub fn is_terminal(&self) -> (r: bool)
        ensures
            r == lifecycle_is_terminal(*self),
    {
        match self {
            LifecycleState::Completed | LifecycleState::Stopped | LifecycleState::Faulted(_) => true,
            _ => false,
        }
    }

    pub fn is_running(&self) -> (r: bool)
        ensures
            r == (*self is Running),
    {
        match self {
            LifecycleState::Running => true,
            _ => false,
        }
    }
}

/// Program pointer of the DSL program.
#[derive(Debug, Default, PartialEq, Eq)]
pub struct ProgramState {
    pub program_counter: usize,
}

/// Control-tick and iteration counters.
#[derive(Debug, Clone, Copy, Default, PartialEq, Eq, Structural)]
pub struct CycleState {
    pub tick_count: u64,
    pub current_cycle: u32,
}

/// Runtime counters of a session.
#[derive(Debug, Default, PartialEq, Eq)]
pub struct SessionState {
    pub program: ProgramState,
    pub cycle: CycleState,
}

/// Error returned for a transition the lifecycle does not admit.
#[derive(Debug, PartialEq, Eq)]
pub struct InvalidLifecycleTransition {
    pub from: LifecycleState,
    pub to_action: &'static str,
}

/// Error returned by registry-level orchestration.
#[derive(Debug, PartialEq, Eq)]
pub enum ExecutionDomainError {
    SessionNotFound(ExecutionSessionId),
    InvalidLifecycle(InvalidLifecycleTransition),
    NotRunning(LifecycleState),
}

/// What the first step of a tick decided.
#[derive(Debug, Clone, PartialEq, Eq)]
pub enum TickStep {
    /// The termination condition held: the session completed on tick
    /// `index`. The tick reports the decision to terminate with `reason`,
    /// the control `action` and the `outcome`.
    Terminated {
        index: u64,
        condition: String,
        reason: String,
        action: Action,
        outcome: TickOutcome,
    },
    /// The program must be evaluated for tick `index`.
    Evaluate { index: u64 },
}

/// The reason given by the decision of a tick that the termination
/// condition on channel `condition` ends.
pub open spec fn termination_reason(condition: Seq<char>) -> Seq<char> {
    "Termination condition '"@ + condition + "' satisfied"@
}

/// The reason of a terminating decision, as `termination_reason` states it.
pub fn termination_reason_text(condition: &str) -> (r: String)
    ensures
        r@ == termination_reason(condition@),
{
    let head = crate::preflight::concat("Termination condition '", condition);
    let r = crate::preflight::concat(head.as_str(), "' satisfied");
    proof {
        assert(r@ == "Termination condition '"@ + condition@ + "' satisfied"@);
    }
    r
}

/// The value of an integer or boolean observation channel.
#[derive(Debug, Clone, Copy, PartialEq, Eq)]
pub enum ChannelReading {
    Integer(i64),
    Boolean(bool),
}

/// Whether a channel reading counts as positive: an integer above zero, or
/// `true`.
pub open spec fn reading_is_positive(r: ChannelReading) -> bool {
    match r {
        ChannelReading::Integer(v) => v > 0,
        ChannelReading::Boolean(b) => b,
    }
}

impl ChannelReading {
    /// Whether the reading is positive, so that a termination condition on
    /// its channel holds.
    pub fn is_positive(&self) -> (r: bool)
        ensures
            r == reading_is_positive(*self),
    {
        match self {
            ChannelReading::Integer(v) => *v > 0,
            ChannelReading::Boolean(b) => *b,
        }
    }
}

/// Whether the termination condition holds for the reading of its channel
/// on this tick: the channel is present and reads positive.
pub open spec fn condition_holds(reading: Option<ChannelReading>) -> bool {
    match reading {
        Some(r) => reading_is_positive(r),
        None => false,
    }
}

/// Whether the termination condition holds, as `condition_holds` states it.
pub fn condition_met_by(reading: Option<ChannelReading>) -> (r: bool)
    ensures
        r == condition_holds(reading),
{
    match reading {
        Some(v) => v.is_positive(),
        None => false,
    }
}

/// Control action triggered by a tick decision.
#[derive(Debug, Clone, PartialEq, Eq)]
pub enum Action {
    DispatchMotion { kind: String, target: String },
    SetOutput { name: String, value: bool },
    HoldPosition,
    NoAction,
}

/// Result of executing an action on tick k.
#[derive(Debug, Clone, PartialEq, Eq)]
pub enum TickOutcome {
    Success,
    Preempted,
    Faulted(String),
    SessionCompleted,
}

/// Error of a channel access evaluation.
#[derive(Debug, Clone, PartialEq, Eq)]
pub enum ChannelAccessError {
    ChannelNotFound(String),
    ValueUnavailable(String),
}

/// The domain execution session entity.
#[derive(Debug)]
pub struct ExecutionSession {
    pub id: ExecutionSessionId,
    pub program_id: String,
    pub station_id: Option<String>,
    pub robotics_module_id: Option<String>,
    pub configuration: ExecutionConfiguration,
    pub lifecycle: LifecycleState,
    pub state: SessionState,
    pub history: Vec<LifecycleState>,
}

/// A lifecycle transition that failed: the session is left exactly as it was.
pub open spec fn rejected(
    before: ExecutionSession,
    after: ExecutionSession,
    r: Result<(), InvalidLifecycleTransition>,
    action: Seq<char>,
) -> bool {
    &&& after == before
    &&& r matches Err(e) && e.from == before.lifecycle && e.to_action@ == action
}

/// A lifecycle transition that succeeded into `next`: only the lifecycle and
/// its history change.
pub open spec fn moved_to(
    before: ExecutionSession,
    after: ExecutionSession,
    r: Result<(), InvalidLifecycleTransition>,
    next: LifecycleState,
) -> bool {
    &&& r is Ok
    &&& after.lifecycle == next
    &&& after.history@ == before.history@.push(next)
    &&& after.id == before.id
    &&& after.program_id == before.program_id
    &&& after.station_id == before.station_id
    &&& after.robotics_module_id == before.robotics_module_id
    &&& after.configuration == before.configuration
    &&& after.state == before.state
}

impl ExecutionSession {
    /// The recorded history starts with `Created`, every consecutive pair is
    /// an edge of the lifecycle, and its last entry is the current state.
    pub open spec fn wf(self) -> bool {
        &&& self.history@.len() >= 1
        &&& self.history@[0] == LifecycleState::Created
        &&& self.history@.last() == self.lifecycle
        &&& forall|i: int|
            0 <= i < self.history@.len() - 1 ==> lifecycle_step(
                #[trigger] self.history@[i],
                self.history@[i + 1],
            )
    }

    pub fn new(program_id: &str, configuration: ExecutionConfiguration) -> (s: Self)
        ensures
            s.program_id@ == program_id@,
            s.station_id is None,
            s.robotics_module_id is None,
            s.configuration == configuration,
            s.lifecycle == LifecycleState::Created,
            s.history@ == seq![LifecycleState::Created],
            s.state.cycle == (CycleState { tick_count: 0, current_cycle: 0 }),
            s.state.program == (ProgramState { program_counter: 0 }),
            exists|t: Seq<char>| s.id.0@ == "exec-"@ + t,
            s.wf(),
    {
        let mut history = Vec::new();
        history.push(LifecycleState::Created);
        ExecutionSession {
            id: ExecutionSessionId::generate(),
            program_id: program_id.to_owned(),
            station_id: None,
            robotics_module_id: None,
            configuration,
            lifecycle: LifecycleState::Created,
            state: SessionState {
                program: ProgramState { program_counter: 0 },
                cycle: CycleState { tick_count: 0, current_cycle: 0 },
            },
            history,
        }
    }

    fn record_transition(&mut self, next: LifecycleState)
        requires
            lifecycle_step(old(self).lifecycle, next),
        ensures
            final(self).lifecycle == next,
            final(self).history@ == old(self).history@.push(next),
            final(self).id == old(self).id,
            final(self).program_id == old(self).program_id,
            final(self).station_id == old(self).station_id,
            final(self).robotics_module_id == old(self).robotics_module_id,
            final(self).configuration == old(self).configuration,
            final(self).state == old(self).state,
            old(self).wf() ==> final(self).wf(),
    {
        let ghost before = self.history@;
        self.lifecycle = next.clone();
        self.history.push(next);
        proof {
            let h = self.history@;
            if before.len() >= 1 && before[0] == LifecycleState::Created && before.last()
                == old(self).lifecycle && (forall|i: int|
                0 <= i < before.len() - 1 ==> lifecycle_step(
                    #[trigger] before[i],
                    before[i + 1],
                )) {
                assert forall|i: int| 0 <= i < h.len() - 1 implies lifecycle_step(
                    #[trigger] h[i],
                    h[i + 1],
                ) by {
                    if i < before.len() - 1 {
                        assert(h[i] == before[i] && h[i + 1] == before[i + 1]);
                    } else {
                        assert(h[i] == before.last());
                    }
                }
            }
        }
    }

    fn reject(&self, to_action: &'static str) -> (e: InvalidLifecycleTransition)
        ensures
            e.from == self.lifecycle,
            e.to_action == to_action,
    {
        InvalidLifecycleTransition { from: self.lifecycle.clone(), to_action }
    }

    /// Transition `Created -> Initializing`.
    pub fn initialize(&mut self) -> (r: Result<(), InvalidLifecycleTransition>)
        ensures
            old(self).lifecycle is Created ==> moved_to(
                *old(self),
                *final(self),
                r,
                LifecycleState::Initializing,
            ),
            !(old(self).lifecycle is Created) ==> rejected(
                *old(self),
                *final(self),
                r,
                "initialize"@,
            ),
            old(self).wf() ==> final(self).wf(),
    {
        match self.lifecycle {
            LifecycleState::Created => {
                self.record_transition(LifecycleState::Initializing);
                Ok(())
            },
            _ => Err(self.reject("initialize")),
        }
    }

    /// Transition `Initializing | Paused -> Running`.
    pub fn start(&mut self) -> (r: Result<(), InvalidLifecycleTransition>)
        ensures
            (old(self).lifecycle is Initializing || old(self).lifecycle is Paused) ==> moved_to(
                *old(self),
                *final(self),
                r,
                LifecycleState::Running,
            ),
            !(old(self).lifecycle is Initializing || old(self).lifecycle is Paused) ==> rejected(
                *old(self),
                *final(self),
                r,
                "start"@,
            ),
            old(self).wf() ==> final(self).wf(),
    {
        match self.lifecycle {
            LifecycleState::Initializing | LifecycleState::Paused => {
                self.record_transition(LifecycleState::Running);
                Ok(())
            },
            _ => Err(self.reject("start")),
        }
    }

    /// Transition `Running -> Paused`.
    pub fn pause(&mut self) -> (r: Result<(), InvalidLifecycleTransition>)
        ensures
            old(self).lifecycle is Running ==> moved_to(
                *old(self),
                *final(self),
                r,
                LifecycleState::Paused,
            ),
            !(old(self).lifecycle is Running) ==> rejected(
                *old(self),
                *final(self),
                r,
                "pause"@,
            ),
            old(self).wf() ==> final(self).wf(),
    {
        match self.lifecycle {
            LifecycleState::Running => {
                self.record_transition(LifecycleState::Paused);
                Ok(())
            },
            _ => Err(self.reject("pause")),
        }
    }

    /// Transition `Running | Paused -> Stopped`.
    pub fn stop(&mut self) -> (r: Result<(), InvalidLifecycleTransition>)
        ensures
            (old(self).lifecycle is Running || old(self).lifecycle is Paused) ==> moved_to(
                *old(self),
                *final(self),
                r,
                LifecycleState::Stopped,
            ),
            !(old(self).lifecycle is Running || old(self).lifecycle is Paused) ==> rejected(
                *old(self),
                *final(self),
                r,
                "stop"@,
            ),
            old(self).wf() ==> final(self).wf(),
    {
        match self.lifecycle {
            LifecycleState::Running | LifecycleState::Paused => {
                self.record_transition(LifecycleState::Stopped);
                Ok(())
            },
            _ => Err(self.reject("stop")),
        }
    }

    /// Transition from any state but `Completed` and `Stopped` to `Faulted`.
    pub fn fault(&mut self, reason: &str) -> (r: Result<(), InvalidLifecycleTransition>)
        ensures
            !(old(self).lifecycle is Completed || old(self).lifecycle is Stopped) ==> moved_to(
                *old(self),
                *final(self),
                r,
                final(self).lifecycle,
            ) && (final(self).lifecycle matches LifecycleState::Faulted(why) && why@ == reason@),
            (old(self).lifecycle is Completed || old(self).lifecycle is Stopped) ==> rejected(
                *old(self),
                *final(self),
                r,
                "fault"@,
            ),
            old(self).wf() ==> final(self).wf(),
    {
        match self.lifecycle {
            LifecycleState::Completed | LifecycleState::Stopped => Err(self.reject("fault")),
            _ => {
                let why = reason.to_owned();
                self.record_transition(LifecycleState::Faulted(why));
                Ok(())
            },
        }
    }

    /// Transition `Running -> Completed`.
    pub fn complete(&mut self) -> (r: Result<(), InvalidLifecycleTransition>)
        ensures
            old(self).lifecycle is Running ==> moved_to(
                *old(self),
                *final(self),
                r,
                LifecycleState::Completed,
            ),
            !(old(self).lifecycle is Running) ==> rejected(
                *old(self),
                *final(self),
                r,
                "complete"@,
            ),
            old(self).wf() ==> final(self).wf(),
    {
        match self.lifecycle {
            LifecycleState::Running => {
                self.record_transition(LifecycleState::Completed);
                Ok(())
            },
            _ => Err(self.reject("complete")),
        }
    }

    /// Closes one program cycle: increments the cycle counter and tells
    /// whether the session must run another cycle under its cardinality.
    pub fn complete_program_cycle(&mut self) -> (more: bool)
        requires
            old(self).state.cycle.current_cycle < u32::MAX,
        ensures
            final(self).state.cycle.current_cycle == old(self).state.cycle.current_cycle + 1,
            final(self).state.cycle.tick_count == old(self).state.cycle.tick_count,
            final(self).state.program == old(self).state.program,
            final(self).lifecycle == old(self).lifecycle,
            final(self).history == old(self).history,
            final(self).configuration == old(self).configuration,
            final(self).id == old(self).id,
            final(self).program_id == old(self).program_id,
            final(self).station_id == old(self).station_id,
            final(self).robotics_module_id == old(self).robotics_module_id,
            more == (match old(self).configuration.cardinality {
                Cardinality::Once => false,
                Cardinality::Counted(n) => final(self).state.cycle.current_cycle < n,
                Cardinality::Continuous => true,
            }),
    {
        self.state.cycle.current_cycle = self.state.cycle.current_cycle + 1;
        match self.configuration.cardinality {
            Cardinality::Once => false,
            Cardinality::Counted(n) => self.state.cycle.current_cycle < n,
            Cardinality::Continuous => true,
        }
    }

    /// Advances the control-tick counter by exactly one.
    pub fn advance_tick(&mut self)
        requires
            old(self).state.cycle.tick_count < u64::MAX,
        ensures
            final(self).state.cycle.tick_count == old(self).state.cycle.tick_count + 1,
            final(self).state.cycle.current_cycle == old(self).state.cycle.current_cycle,
            final(self).state.program == old(self).state.program,
            final(self).lifecycle == old(self).lifecycle,
            final(self).history == old(self).history,
            final(self).configuration == old(self).configuration,
            final(self).id == old(self).id,
            final(self).program_id == old(self).program_id,
            final(self).station_id == old(self).station_id,
            final(self).robotics_module_id == old(self).robotics_module_id,
    {
        self.state.cycle.tick_count = self.state.cycle.tick_count + 1;
    }

    /// The observation channel whose positive reading terminates the
    /// session, when the termination policy is a condition.
    pub fn termination_channel(&self) -> (r: Option<&String>)
        ensures
            match self.configuration.termination {
                TerminationPolicy::Condition(ch) => r == Some(&ch),
                _ => r is None,
            },
    {
        match &self.configuration.termination {
            TerminationPolicy::Condition(ch) => Some(ch),
            _ => None,
        }
    }

    /// First step of tick evaluation. A session that is not `Running` is
    /// rejected unchanged. Otherwise the tick counter advances; when the
    /// termination policy is a condition and `condition_met` (the condition
    /// channel is present and reads positive, see `condition_met_by`), the
    /// session completes and the tick reports the decision to terminate with
    /// `termination_reason`, no action and the `SessionCompleted` outcome;
    /// otherwise the program must be evaluated.
    pub fn evaluate_tick(&mut self, condition_met: bool) -> (r: Result<
        TickStep,
        InvalidLifecycleTransition,
    >)
        requires
            old(self).lifecycle is Running ==> old(self).state.cycle.tick_count < u64::MAX,
        ensures
            !(old(self).lifecycle is Running) ==> *final(self) == *old(self) && (r matches Err(e)
                && e.from == old(self).lifecycle && e.to_action@ == "evaluate_tick"@),
            old(self).lifecycle is Running ==> {
                &&& final(self).state.cycle.tick_count == old(self).state.cycle.tick_count + 1
                &&& final(self).state.cycle.current_cycle == old(self).state.cycle.current_cycle
                &&& final(self).state.program == old(self).state.program
                &&& final(self).configuration == old(self).configuration
                &&& final(self).id == old(self).id
                &&& final(self).program_id == old(self).program_id
                &&& final(self).station_id == old(self).station_id
                &&& final(self).robotics_module_id == old(self).robotics_module_id
                &&& match old(self).configuration.termination {
                    TerminationPolicy::Condition(ch) if condition_met => {
                        &&& r matches Ok(TickStep::Terminated { index, condition, reason, action, outcome })
                        &&& index == final(self).state.cycle.tick_count
                        &&& condition == ch
                        &&& reason@ == termination_reason(ch@)
                        &&& action == Action::NoAction
                        &&& outcome == TickOutcome::SessionCompleted
                        &&& final(self).lifecycle == LifecycleState::Completed
                        &&& final(self).history@ == old(self).history@.push(
                            LifecycleState::Completed,
                        )
                    },
                    _ => {
                        &&& r == Ok::<TickStep, InvalidLifecycleTransition>(
                            TickStep::Evaluate { index: final(self).state.cycle.tick_count },
                        )
                        &&& final(self).lifecycle == old(self).lifecycle
                        &&& final(self).history == old(self).history
                    },
                }
            },
            old(self).wf() ==> final(self).wf(),
    {
        match self.lifecycle {
            LifecycleState::Running => {},
            _ => {
                return Err(self.reject("evaluate_tick"));
            },
        }
        self.advance_tick();
        let index = self.state.cycle.tick_count;
        let terminate = match &self.configuration.termination {
            TerminationPolicy::Condition(ch) if condition_met => Some(ch.clone()),
            _ => None,
        };
        match terminate {
            Some(condition) => {
                self.record_transition(LifecycleState::Completed);
                let reason = termination_reason_text(condition.as_str());
                Ok(
                    TickStep::Terminated {
                        index,
                        condition,
                        reason,
                        action: Action::NoAction,
                        outcome: TickOutcome::SessionCompleted,
                    },
                )
            },
            None => Ok(TickStep::Evaluate { index }),
        }
    }
}

/// Law: once a session is `Completed` or `Stopped` no transition leaves that
/// state, and from `Faulted` the only admitted transition is another fault.
pub proof fn lemma_terminal_states_are_final(from: LifecycleState, to: LifecycleState)
    requires
        lifecycle_is_terminal(from),
        lifecycle_step(from, to),
    ensures
        from is Faulted,
        to is Faulted,
{
}

/// Law: a session only ever runs after it was initialized: in the history
/// of any session, every `Running` entry is preceded by an `Initializing`
/// one.
pub proof fn lemma_running_requires_initialization(s: ExecutionSession, i: int)
    requires
        s.wf(),
        0 <= i < s.history@.len(),
        s.history@[i] is Running,
    ensures
        exists|j: int| 0 < j < i && (#[trigger] s.history@[j]) is Initializing,
    decreases i,
{
    let h = s.history@;
    assert(i > 0);
    assert(lifecycle_step(h[i - 1], h[i]));
    if h[i - 1] is Initializing {
        assert(i - 1 > 0);
        assert(h[i - 1] is Initializing);
    } else {
        assert(h[i - 1] is Paused);
        assert(i - 1 > 0);
        assert(lifecycle_step(h[i - 2], h[i - 1]));
        assert(h[i - 2] is Running);
        lemma_running_requires_initialization(s, i - 2);
    }
}

/// A lifecycle change performed on a registered session.
#[derive(Debug, PartialEq, Eq)]
pub struct LifecycleChange {
    pub previous: LifecycleState,
    pub current: LifecycleState,
}

/// The lifecycle operations the registry forwards to a session.
#[derive(Debug, Clone, Copy, PartialEq, Eq, Structural)]
pub enum LifecycleCommand {
    Initialize,
    Start,
    Pause,
    Stop,
    Complete,
}

/// The state a lifecycle command moves to, when it is admitted from `from`.
pub open spec fn command_target(c: LifecycleCommand, from: LifecycleState) -> Option<LifecycleState> {
    match c {
        LifecycleCommand::Initialize => if from is Created {
            Some(LifecycleState::Initializing)
        } else {
            None
        },
        LifecycleCommand::Start => if from is Initializing || from is Paused {
            Some(LifecycleState::Running)
        } else {
            None
        },
        LifecycleCommand::Pause => if from is Running {
            Some(LifecycleState::Paused)
        } else {
            None
        },
        LifecycleCommand::Stop => if from is Running || from is Paused {
            Some(LifecycleState::Stopped)
        } else {
            None
        },
        LifecycleCommand::Complete => if from is Running {
            Some(LifecycleState::Completed)
        } else {
            None
        },
    }
}

/// The lifecycle state a command asks for.
pub open spec fn command_state(c: LifecycleCommand) -> LifecycleState {
    match c {
        LifecycleCommand::Initialize => LifecycleState::Initializing,
        LifecycleCommand::Start => LifecycleState::Running,
        LifecycleCommand::Pause => LifecycleState::Paused,
        LifecycleCommand::Stop => LifecycleState::Stopped,
        LifecycleCommand::Complete => LifecycleState::Completed,
    }
}

/// Law: a lifecycle command applied through the registry is admitted from
/// exactly the states that have an edge of the lifecycle to the state the
/// command asks for, and it moves the session there. So `Stop` is admitted
/// from `Running` and from `Paused`, `Start` from `Initializing` and from
/// `Paused`, and no command leaves `Completed`, `Stopped` or `Faulted`.
pub proof fn lemma_commands_follow_lifecycle_edges(c: LifecycleCommand, from: LifecycleState)
    ensures
        command_target(c, from) is Some <==> lifecycle_step(from, command_state(c)),
        command_target(c, from) matches Some(to) ==> to == command_state(c),
        lifecycle_is_terminal(from) ==> command_target(c, from) is None,
{
}

/// The action name reported when a lifecycle command is rejected.
pub open spec fn command_name(c: LifecycleCommand) -> Seq<char> {
    match c {
        LifecycleCommand::Initialize => "initialize"@,
        LifecycleCommand::Start => "start"@,
        LifecycleCommand::Pause => "pause"@,
        LifecycleCommand::Stop => "stop"@,
        LifecycleCommand::Complete => "complete"@,
    }
}

/// Position of the first session with identifier `id`, if any.
pub open spec fn first_index(s: Seq<ExecutionSession>, id: Seq<char>) -> Option<int>
    decreases s.len(),
{
    if s.len() == 0 {
        None
    } else {
        match first_index(s.drop_last(), id) {
            Some(i) => Some(i),
            None => if s.last().id.0@ == id {
                Some(s.len() - 1)
            } else {
                None
            },
        }
    }
}

proof fn lemma_first_index_bounds(s: Seq<ExecutionSession>, id: Seq<char>)
    ensures
        first_index(s, id) matches Some(i) ==> 0 <= i < s.len() && s[i].id.0@ == id && forall|
            j: int,
        | 0 <= j < i ==> (#[trigger] s[j]).id.0@ != id,
        first_index(s, id) is None ==> forall|j: int| 0 <= j < s.len() ==> (#[trigger] s[j]).id.0@ != id,
    decreases s.len(),
{
    if s.len() > 0 {
        lemma_first_index_bounds(s.drop_last(), id);
        assert forall|j: int| 0 <= j < s.len() - 1 implies #[trigger] s[j] == s.drop_last()[j] by {}
    }
}

proof fn lemma_first_index_at(s: Seq<ExecutionSession>, id: Seq<char>, i: int)
    requires
        0 <= i < s.len(),
        s[i].id.0@ == id,
        forall|j: int| 0 <= j < i ==> (#[trigger] s[j]).id.0@ != id,
    ensures
        first_index(s, id) == Some(i),
    decreases s.len(),
{
    if i < s.len() - 1 {
        lemma_first_index_at(s.drop_last(), id, i);
    } else {
        lemma_first_index_bounds(s.drop_last(), id);
    }
}

proof fn lemma_first_index_prefix(s: Seq<ExecutionSession>, id: Seq<char>, k: int)
    requires
        0 <= k <= s.len(),
    ensures
        first_index(s.take(k), id) is Some ==> first_index(s, id) == first_index(s.take(k), id),
    decreases s.len() - k,
{
    if k == s.len() {
        assert(s.take(k) =~= s);
    } else {
        lemma_first_index_prefix(s.drop_last(), id, k);
        assert(s.drop_last().take(k) =~= s.take(k));
    }
}

proof fn lemma_registered_is_found(
    before: Seq<ExecutionSession>,
    after: Seq<ExecutionSession>,
    x: ExecutionSession,
)
    requires
        match first_index(before, x.id.0@) {
            Some(i) => after == before.update(i, x),
            None => after == before.push(x),
        },
    ensures
        first_index(after, x.id.0@) matches Some(k) && after[k] == x,
{
    lemma_first_index_bounds(before, x.id.0@);
    match first_index(before, x.id.0@) {
        Some(i) => {
            assert forall|j: int| 0 <= j < i implies (#[trigger] after[j]).id.0@ != x.id.0@ by {
                assert(after[j] == before[j]);
            }
            lemma_first_index_at(after, x.id.0@, i);
        },
        None => {
            assert forall|j: int| 0 <= j < before.len() implies (#[trigger] after[j]).id.0@
                != x.id.0@ by {
                assert(after[j] == before[j]);
            }
            lemma_first_index_at(after, x.id.0@, before.len() as int);
        },
    }
}

/// In-memory registry of execution sessions keyed by identifier.
#[derive(Debug)]
pub struct SessionRegistry {
    sessions: Vec<ExecutionSession>,
}

impl SessionRegistry {
    /// The registered sessions, in registration order.
    pub closed spec fn entries(&self) -> Seq<ExecutionSession> {
        self.sessions@
    }

    /// The session registered under `id`.
    pub open spec fn session_of(&self, id: Seq<char>) -> Option<ExecutionSession> {
        match first_index(self.entries(), id) {
            Some(i) => Some(self.entries()[i]),
            None => None,
        }
    }

    pub fn new() -> (r: Self)
        ensures
            r.entries() == Seq::<ExecutionSession>::empty(),
    {
        SessionRegistry { sessions: Vec::new() }
    }

    fn find(&self, id: &ExecutionSessionId) -> (r: Option<usize>)
        ensures
            match first_index(self.entries(), id.0@) {
                Some(i) => r matches Some(j) && j as int == i,
                None => r is None,
            },
            r matches Some(i) ==> i < self.entries().len() && self.entries()[i as int].id.0@ == id.0@,
    {
        proof {
            lemma_first_index_bounds(self.sessions@, id.0@);
        }
        let n = self.sessions.len();
        let mut i: usize = 0;
        while i < n
            invariant
                n == self.sessions@.len(),
                i <= n,
                first_index(self.sessions@.take(i as int), id.0@) is None,
            decreases n - i,
        {
            proof {
                let t = self.sessions@.take(i as int + 1);
                assert(t.drop_last() =~= self.sessions@.take(i as int));
            }
            if self.sessions[i].id.0 == id.0 {
                proof {
                    lemma_first_index_prefix(self.sessions@, id.0@, i as int + 1);
                }
                return Some(i);
            }
            i = i + 1;
        }
        proof {
            assert(self.sessions@.take(n as int) =~= self.sessions@);
        }
        None
    }

    /// Registers `session`, replacing a session already registered under
    /// the same identifier; returns the identifier.
    pub fn register(&mut self, session: ExecutionSession) -> (id: ExecutionSessionId)
        ensures
            id == session.id,
            match first_index(old(self).entries(), session.id.0@) {
                Some(i) => final(self).entries() == old(self).entries().update(i, session),
                None => final(self).entries() == old(self).entries().push(session),
            },
    {
        let id = session.id.clone();
        match self.find(&id) {
            Some(i) => {
                self.sessions.set(i, session);
            },
            None => {
                self.sessions.push(session);
            },
        }
        id
    }

    /// The session registered under `id`.
    pub fn get(&self, id: &ExecutionSessionId) -> (r: Option<&ExecutionSession>)
        ensures
            match self.session_of(id.0@) {
                Some(s) => r == Some(&s),
                None => r is None,
            },
    {
        match self.find(id) {
            Some(i) => Some(&self.sessions[i]),
            None => None,
        }
    }

    /// Identifiers of all registered sessions, in registration order.
    pub fn list_sessions(&self) -> (r: Vec<ExecutionSessionId>)
        ensures
            r@.len() == self.entries().len(),
            forall|i: int| 0 <= i < r@.len() ==> #[trigger] r@[i] == self.entries()[i].id,
    {
        let mut out: Vec<ExecutionSessionId> = Vec::new();
        let n = self.sessions.len();
        let mut i: usize = 0;
        while i < n
            invariant
                n == self.sessions@.len(),
                i <= n,
                out@.len() == i,
                forall|j: int| 0 <= j < i ==> #[trigger] out@[j] == self.sessions@[j].id,
            decreases n - i,
        {
            out.push(self.sessions[i].id.clone());
            i = i + 1;
        }
        out
    }

    /// Creates and registers a new session for `program_id`.
    pub fn create_session(&mut self, program_id: &str, config: ExecutionConfiguration) -> (id:
        ExecutionSessionId)
        ensures
            self_has_new_session(*final(self), *old(self), id, program_id@, None, None, config),
    {
        let session = ExecutionSession::new(program_id, config);
        let ghost fresh = session;
        let id = self.register(session);
        proof {
            lemma_registered_is_found(old(self).entries(), self.entries(), fresh);
        }
        id
    }

    /// Creates and registers a new session bound to a station and a
    /// robotics module.
    pub fn create_session_with_target(
        &mut self,
        station_id: &str,
        robotics_module_id: &str,
        program_id: &str,
        config: ExecutionConfiguration,
    ) -> (id: ExecutionSessionId)
        ensures
            self_has_new_session(
                *final(self),
                *old(self),
                id,
                program_id@,
                Some(station_id@),
                Some(robotics_module_id@),
                config,
            ),
    {
        let mut session = ExecutionSession::new(program_id, config);
        session.station_id = Some(station_id.to_owned());
        session.robotics_module_id = Some(robotics_module_id.to_owned());
        let ghost fresh = session;
        let id = self.register(session);
        proof {
            lemma_registered_is_found(old(self).entries(), self.entries(), fresh);
        }
        id
    }

    /// Applies a lifecycle command to the session registered under `id`.
    pub fn apply(&mut self, id: &ExecutionSessionId, command: LifecycleCommand) -> (r: Result<
        LifecycleChange,
        ExecutionDomainError,
    >)
        ensures
            match first_index(old(self).entries(), id.0@) {
                None => final(self).entries() == old(self).entries() && r == Err::<
                    LifecycleChange,
                    ExecutionDomainError,
                >(ExecutionDomainError::SessionNotFound(*id)),
                Some(i) => {
                    let before = old(self).entries()[i];
                    let after = final(self).entries()[i];
                    &&& final(self).entries().len() == old(self).entries().len()
                    &&& forall|j: int|
                        0 <= j < old(self).entries().len() && j != i ==> final(self).entries()[j]
                            == old(self).entries()[j]
                    &&& match command_target(command, before.lifecycle) {
                        Some(next) => moved_to(before, after, Ok(()), next) && r == Ok::<
                            LifecycleChange,
                            ExecutionDomainError,
                        >(LifecycleChange { previous: before.lifecycle, current: next }),
                        None => after == before && (r matches Err(
                            ExecutionDomainError::InvalidLifecycle(e),
                        ) && e.from == before.lifecycle && e.to_action@ == command_name(command)),
                    }
                    &&& before.wf() ==> after.wf()
                },
            },
    {
        let i = match self.find(id) {
            Some(i) => i,
            None => {
                return Err(ExecutionDomainError::SessionNotFound(id.clone()));
            },
        };
        let mut session = self.sessions.remove(i);
        let previous = session.lifecycle.clone();
        let outcome = match command {
            LifecycleCommand::Initialize => session.initialize(),
            LifecycleCommand::Start => session.start(),
            LifecycleCommand::Pause => session.pause(),
            LifecycleCommand::Stop => session.stop(),
            LifecycleCommand::Complete => session.complete(),
        };
        let current = session.lifecycle.clone();
        self.sessions.insert(i, session);
        match outcome {
            Ok(()) => Ok(LifecycleChange { previous, current }),
            Err(e) => Err(ExecutionDomainError::InvalidLifecycle(e)),
        }
    }

    /// First tick step on the session registered under `id`: rejected when
    /// the session is unknown or not `Running`, otherwise forwarded to
    /// `ExecutionSession::evaluate_tick`.
    pub fn begin_tick(&mut self, id: &ExecutionSessionId, condition_met: bool) -> (r: Result<
        TickStep,
        ExecutionDomainError,
    >)
        ensures
            match first_index(old(self).entries(), id.0@) {
                None => final(self).entries() == old(self).entries() && r == Err::<
                    TickStep,
                    ExecutionDomainError,
                >(ExecutionDomainError::SessionNotFound(*id)),
                Some(i) => {
                    let before = old(self).entries()[i];
                    let after = final(self).entries()[i];
                    &&& final(self).entries().len() == old(self).entries().len()
                    &&& forall|j: int|
                        0 <= j < old(self).entries().len() && j != i ==> final(self).entries()[j]
                            == old(self).entries()[j]
                    &&& !(before.lifecycle is Running) ==> after == before && r == Err::<
                        TickStep,
                        ExecutionDomainError,
                    >(ExecutionDomainError::NotRunning(before.lifecycle))
                    &&& before.lifecycle is Running && before.state.cycle.tick_count == u64::MAX
                        ==> after == before && r == Err::<TickStep, ExecutionDomainError>(
                        ExecutionDomainError::NotRunning(before.lifecycle),
                    )
                    &&& before.lifecycle is Running && before.state.cycle.tick_count < u64::MAX
                        ==> tick_taken(before, after, condition_met, r)
                    &&& before.wf() ==> after.wf()
                },
            },
    {
        let i = match self.find(id) {
            Some(i) => i,
            None => {
                return Err(ExecutionDomainError::SessionNotFound(id.clone()));
            },
        };
        let running = self.sessions[i].lifecycle.is_running();
        if !running || self.sessions[i].state.cycle.tick_count == u64::MAX {
            return Err(ExecutionDomainError::NotRunning(self.sessions[i].lifecycle.clone()));
        }
        let mut session = self.sessions.remove(i);
        let step = session.evaluate_tick(condition_met);
        self.sessions.insert(i, session);
        match step {
            Ok(step) => Ok(step),
            Err(e) => Err(ExecutionDomainError::InvalidLifecycle(e)),
        }
    }
}

/// `after` is `before` once a tick was taken from `Running`, as
/// `ExecutionSession::evaluate_tick` states it.
pub open spec fn tick_taken(
    before: ExecutionSession,
    after: ExecutionSession,
    condition_met: bool,
    r: Result<TickStep, ExecutionDomainError>,
) -> bool {
    &&& after.state.cycle.tick_count == before.state.cycle.tick_count + 1
    &&& after.state.cycle.current_cycle == before.state.cycle.current_cycle
    &&& after.state.program == before.state.program
    &&& after.configuration == before.configuration
    &&& after.id == before.id
    &&& after.program_id == before.program_id
    &&& after.station_id == before.station_id
    &&& after.robotics_module_id == before.robotics_module_id
    &&& match before.configuration.termination {
        TerminationPolicy::Condition(ch) if condition_met => {
            &&& r matches Ok(TickStep::Terminated { index, condition, reason, action, outcome })
            &&& index == after.state.cycle.tick_count
            &&& condition == ch
            &&& reason@ == termination_reason(ch@)
            &&& action == Action::NoAction
            &&& outcome == TickOutcome::SessionCompleted
            &&& after.lifecycle == LifecycleState::Completed
            &&& after.history@ == before.history@.push(LifecycleState::Completed)
        },
        _ => {
            &&& r == Ok::<TickStep, ExecutionDomainError>(
                TickStep::Evaluate { index: after.state.cycle.tick_count },
            )
            &&& after.lifecycle == before.lifecycle
            &&& after.history == before.history
        },
    }
}

/// Law: the session a registry creates is registered under the returned
/// id with exactly the configuration it was given (its cardinality and its
/// termination policy), freshly `Created`, with no tick taken.
pub proof fn lemma_new_session_keeps_configuration(
    after: SessionRegistry,
    before: SessionRegistry,
    id: ExecutionSessionId,
    program_id: Seq<char>,
    station_id: Option<Seq<char>>,
    robotics_module_id: Option<Seq<char>>,
    config: ExecutionConfiguration,
)
    requires
        self_has_new_session(after, before, id, program_id, station_id, robotics_module_id, config),
    ensures
        after.session_of(id.0@) matches Some(s) && {
            &&& s.configuration.cardinality == config.cardinality
            &&& s.configuration.termination == config.termination
            &&& s.configuration == config
            &&& s.lifecycle is Created
            &&& s.state.cycle.tick_count == 0
        },
{
}

/// `after` is `before` with a freshly created session registered under `id`.
pub open spec fn self_has_new_session(
    after: SessionRegistry,
    before: SessionRegistry,
    id: ExecutionSessionId,
    program_id: Seq<char>,
    station_id: Option<Seq<char>>,
    robotics_module_id: Option<Seq<char>>,
    config: ExecutionConfiguration,
) -> bool {
    &&& exists|t: Seq<char>| id.0@ == "exec-"@ + t
    &&& after.session_of(id.0@) matches Some(s) && {
        &&& s.id == id
        &&& s.program_id@ == program_id
        &&& s.configuration == config
        &&& s.lifecycle == LifecycleState::Created
        &&& s.history@ == seq![LifecycleState::Created]
        &&& s.state.cycle == (CycleState { tick_count: 0, current_cycle: 0 })
        &&& s.wf()
        &&& match station_id {
            Some(st) => s.station_id matches Some(x) && x@ == st,
            None => s.station_id is None,
        }
        &&& match robotics_module_id {
            Some(rm) => s.robotics_module_id matches Some(x) && x@ == rm,
            None => s.robotics_module_id is None,
        }
    }
}

} // verus!
