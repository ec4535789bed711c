//! The history of execution sessions rebuilt from the domain events the
//! runtime publishes: lifecycle transitions, evaluated ticks and faults,
//! per session.
//!
//! The full result of a tick (`R`) is carried, never inspected; what the
//! history reads of it, the tick index and outcome, travels beside it.

use vstd::prelude::*;
use crate::events::{HistoricalFaultRecord, HistoricalLifecycleTransition, TemporalInvariants};
use crate::lifecycle::{
    Cardinality, Environment, ExecutionConfiguration, ExecutionSessionId, LifecycleState, Reactivity,
    TerminationPolicy, TickOutcome, lifecycle_is_terminal,
};

verus! {

/// Record of an evaluated tick.
#[derive(Debug)]
pub struct HistoricalTickRecord<R> {
    pub tick_index: u64,
    pub outcome: TickOutcome,
    pub result: R,
    pub temporal: TemporalInvariants,
}

/// The complete history of one session.
#[derive(Debug)]
pub struct ExecutionHistory<R> {
    pub session_id: ExecutionSessionId,
    pub program_id: String,
    pub configuration: ExecutionConfiguration,
    pub created_at_us: u64,
    pub completed_at_us: Option<u64>,
    pub final_lifecycle: LifecycleState,
    pub lifecycle_transitions: Vec<HistoricalLifecycleTransition>,
    pub ticks: Vec<HistoricalTickRecord<R>>,
    pub faults: Vec<HistoricalFaultRecord>,
}

/// A domain event of the runtime.
#[derive(Debug)]
pub enum ExecutionEvent<R> {
    SessionCreated { session_id: ExecutionSessionId, program_id: String, timestamp_us: u64 },
    LifecycleChanged {
        session_id: ExecutionSessionId,
        previous: LifecycleState,
        current: LifecycleState,
        timestamp_us: u64,
    },
    TickEvaluated { session_id: ExecutionSessionId, record: HistoricalTickRecord<R> },
    SessionFaulted { session_id: ExecutionSessionId, reason: String, timestamp_us: u64 },
}

/// `c` is the default configuration: virtual simulation, once, not
/// reactive, ending naturally.
pub open spec fn is_default_configuration(c: ExecutionConfiguration) -> bool {
    &&& c.environment == Environment::VirtualSimulation
    &&& c.cardinality == Cardinality::Once
    &&& c.reactivity == Reactivity::NonReactive
    &&& c.termination == TerminationPolicy::NaturalCompletion
}

/// `after` is `before` with only the listed parts changed: identity,
/// configuration and creation time never change.
pub open spec fn same_session<R>(before: ExecutionHistory<R>, after: ExecutionHistory<R>) -> bool {
    &&& after.session_id == before.session_id
    &&& after.program_id == before.program_id
    &&& after.configuration == before.configuration
    &&& after.created_at_us == before.created_at_us
}

/// `after` is `before` once the transition `previous -> current` at `ts`
/// was recorded.
pub open spec fn lifecycle_recorded<R>(
    before: ExecutionHistory<R>,
    after: ExecutionHistory<R>,
    previous: LifecycleState,
    current: LifecycleState,
    ts: u64,
) -> bool {
    &&& same_session(before, after)
    &&& after.final_lifecycle == current
    &&& after.completed_at_us == if lifecycle_is_terminal(current) {
        Some(ts)
    } else {
        before.completed_at_us
    }
    &&& after.lifecycle_transitions@ == before.lifecycle_transitions@.push(
        HistoricalLifecycleTransition { previous, current, timestamp_us: ts },
    )
    &&& after.ticks == before.ticks
    &&& after.faults == before.faults
}

/// `after` is `before` once tick record `rec` was recorded: a faulted
/// outcome is also recorded as a fault at the tick's evaluation time.
pub open spec fn tick_recorded<R>(
    before: ExecutionHistory<R>,
    after: ExecutionHistory<R>,
    rec: HistoricalTickRecord<R>,
) -> bool {
    &&& same_session(before, after)
    &&& after.final_lifecycle == before.final_lifecycle
    &&& after.completed_at_us == before.completed_at_us
    &&& after.lifecycle_transitions == before.lifecycle_transitions
    &&& after.ticks@ == before.ticks@.push(rec)
    &&& match rec.outcome {
        TickOutcome::Faulted(reason) => after.faults@ == before.faults@.push(
            HistoricalFaultRecord {
                tick_index: rec.tick_index,
                reason,
                timestamp_us: rec.temporal.evaluated_at_us,
            },
        ),
        _ => after.faults == before.faults,
    }
}

/// `after` is `before` once a fault with `reason` at `ts` was recorded,
/// attributed to the last evaluated tick (0 before any).
pub open spec fn fault_recorded<R>(
    before: ExecutionHistory<R>,
    after: ExecutionHistory<R>,
    reason: String,
    ts: u64,
) -> bool {
    &&& same_session(before, after)
    &&& after.final_lifecycle == before.final_lifecycle
    &&& after.completed_at_us == before.completed_at_us
    &&& after.lifecycle_transitions == before.lifecycle_transitions
    &&& after.ticks == before.ticks
    &&& after.faults@ == before.faults@.push(
        HistoricalFaultRecord {
            tick_index: if before.ticks@.len() > 0 {
                before.ticks@.last().tick_index
            } else {
                0
            },
            reason,
            timestamp_us: ts,
        },
    )
}

impl<R> ExecutionHistory<R> {
    pub fn new(
        session_id: ExecutionSessionId,
        program_id: String,
        configuration: ExecutionConfiguration,
        created_at_us: u64,
    ) -> (h: Self)
        ensures
            h.session_id == session_id,
            h.program_id == program_id,
            h.configuration == configuration,
            h.created_at_us == created_at_us,
            h.completed_at_us is None,
            h.final_lifecycle == LifecycleState::Created,
            h.lifecycle_transitions@.len() == 0,
            h.ticks@.len() == 0,
            h.faults@.len() == 0,
    {
        ExecutionHistory {
            session_id,
            program_id,
            configuration,
            created_at_us,
            completed_at_us: None,
            final_lifecycle: LifecycleState::Created,
            lifecycle_transitions: Vec::new(),
            ticks: Vec::new(),
            faults: Vec::new(),
        }
    }

    /// Records a lifecycle transition; a terminal state also stamps the
    /// completion time.
    pub fn record_lifecycle(&mut self, previous: LifecycleState, current: LifecycleState, timestamp_us: u64)
        ensures
            lifecycle_recorded(*old(self), *final(self), previous, current, timestamp_us),
    {
        self.final_lifecycle = current.clone();
        if current.is_terminal() {
            self.completed_at_us = Some(timestamp_us);
        }
        self.lifecycle_transitions.push(
            HistoricalLifecycleTransition { previous, current, timestamp_us },
        );
    }

    /// Records an evaluated tick, and its fault when it faulted.
    pub fn record_tick(&mut self, record: HistoricalTickRecord<R>)
        ensures
            tick_recorded(*old(self), *final(self), record),
    {
        match &record.outcome {
            TickOutcome::Faulted(reason) => {
                self.faults.push(
                    HistoricalFaultRecord {
                        tick_index: record.tick_index,
                        reason: reason.clone(),
                        timestamp_us: record.temporal.evaluated_at_us,
                    },
                );
            },
            _ => {},
        }
        self.ticks.push(record);
    }

    /// Records a fault against the last evaluated tick.
    pub fn record_fault(&mut self, reason: String, timestamp_us: u64)
        ensures
            fault_recorded(*old(self), *final(self), reason, timestamp_us),
    {
        let n = self.ticks.len();
        let tick_index = if n > 0 {
            self.ticks[n - 1].tick_index
        } else {
            0
        };
        self.faults.push(HistoricalFaultRecord { tick_index, reason, timestamp_us });
    }
}

/// Index of the history of session `id` in `hs`.
pub open spec fn history_index<R>(hs: Seq<ExecutionHistory<R>>, id: Seq<char>) -> Option<int>
    decreases hs.len(),
{
    if hs.len() == 0 {
        None
    } else {
        match history_index(hs.drop_last(), id) {
            Some(i) => Some(i),
            None => if hs.last().session_id.0@ == id {
                Some(hs.len() - 1)
            } else {
                None
            },
        }
    }
}

/// The histories of all sessions, rebuilt from published events.
pub struct ExecutionHistoryStore<R> {
    histories: Vec<ExecutionHistory<R>>,
}

impl<R> ExecutionHistoryStore<R> {
    /// The histories, in order of session creation.
    pub closed spec fn entries(&self) -> Seq<ExecutionHistory<R>> {
        self.histories@
    }

    pub fn new() -> (s: Self)
        ensures
            s.entries().len() == 0,
    {
        ExecutionHistoryStore { histories: Vec::new() }
    }

    fn find(&self, id: &ExecutionSessionId) -> (r: Option<usize>)
        ensures
            r is None <==> history_index(self.entries(), id.0@) is None,
            r matches Some(j) ==> history_index(self.entries(), id.0@) == Some(j as int) && j
                < self.entries().len(),
    {
        proof {
            lemma_history_index_bounds(self.histories@, id.0@);
        }
        let n = self.histories.len();
        let mut i: usize = 0;
        while i < n
            invariant
                n == self.histories@.len(),
                i <= n,
                history_index(self.histories@.take(i as int), id.0@) is None,
            decreases n - i,
        {
            proof {
                assert(self.histories@.take(i as int + 1).drop_last() =~= self.histories@.take(
                    i as int,
                ));
            }
            if self.histories[i].session_id.0 == id.0 {
                proof {
                    lemma_history_index_prefix(self.histories@, id.0@, i as int + 1);
                }
                return Some(i);
            }
            i = i + 1;
        }
        proof {
            assert(self.histories@.take(n as int) =~= self.histories@);
        }
        None
    }

    /// The history of session `id`.
    pub fn get_history(&self, id: &ExecutionSessionId) -> (r: Option<&ExecutionHistory<R>>)
        ensures
            match history_index(self.entries(), id.0@) {
                Some(i) => r == Some(&self.entries()[i]),
                None => r is None,
            },
    {
        match self.find(id) {
            Some(i) => Some(&self.histories[i]),
            None => None,
        }
    }

    /// The sessions with a history, in order of creation.
    pub fn list_sessions(&self) -> (r: Vec<ExecutionSessionId>)
        ensures
            r@.len() == self.entries().len(),
            forall|i: int| 0 <= i < r@.len() ==> #[trigger] r@[i] == self.entries()[i].session_id,
    {
        let mut out: Vec<ExecutionSessionId> = Vec::new();
        let n = self.histories.len();
        let mut i: usize = 0;
        while i < n
            invariant
                n == self.histories@.len(),
                i <= n,
                out@.len() == i,
                forall|j: int| 0 <= j < i ==> #[trigger] out@[j] == self.histories@[j].session_id,
            decreases n - i,
        {
            out.push(self.histories[i].session_id.clone());
            i = i + 1;
        }
        out
    }

    /// Applies a published event: a creation opens a history (once per
    /// session); lifecycle changes, ticks and faults are recorded into the
    /// history of their session, and ignored for an unknown one.
    pub fn on_event(&mut self, event: ExecutionEvent<R>)
        ensures
            match event {
                ExecutionEvent::SessionCreated { session_id, program_id, timestamp_us } => match history_index(
                    old(self).entries(),
                    session_id.0@,
                ) {
                    Some(_) => final(self).entries() == old(self).entries(),
                    None => {
                        &&& final(self).entries().len() == old(self).entries().len() + 1
                        &&& final(self).entries().drop_last() == old(self).entries()
                        &&& {
                            let h = final(self).entries().last();
                            &&& h.session_id == session_id
                            &&& h.program_id == program_id
                            &&& is_default_configuration(h.configuration)
                            &&& h.created_at_us == timestamp_us
                            &&& h.completed_at_us is None
                            &&& h.final_lifecycle == LifecycleState::Created
                            &&& h.lifecycle_transitions@.len() == 0
                            &&& h.ticks@.len() == 0
                            &&& h.faults@.len() == 0
                        }
                    },
                },
                ExecutionEvent::LifecycleChanged { session_id, previous, current, timestamp_us } => match history_index(
                    old(self).entries(),
                    session_id.0@,
                ) {
                    None => final(self).entries() == old(self).entries(),
                    Some(i) => {
                        &&& final(self).entries().len() == old(self).entries().len()
                        &&& forall|j: int|
                            0 <= j < old(self).entries().len() && j != i ==> final(self).entries()[j]
                                == old(self).entries()[j]
                        &&& lifecycle_recorded(
                            old(self).entries()[i],
                            final(self).entries()[i],
                            previous,
                            current,
                            timestamp_us,
                        )
                    },
                },
                ExecutionEvent::TickEvaluated { session_id, record } => match history_index(
                    old(self).entries(),
                    session_id.0@,
                ) {
                    None => final(self).entries() == old(self).entries(),
                    Some(i) => {
                        &&& final(self).entries().len() == old(self).entries().len()
                        &&& forall|j: int|
                            0 <= j < old(self).entries().len() && j != i ==> final(self).entries()[j]
                                == old(self).entries()[j]
                        &&& tick_recorded(old(self).entries()[i], final(self).entries()[i], record)
                    },
                },
                ExecutionEvent::SessionFaulted { session_id, reason, timestamp_us } => match history_index(
                    old(self).entries(),
                    session_id.0@,
                ) {
                    None => final(self).entries() == old(self).entries(),
                    Some(i) => {
                        &&& final(self).entries().len() == old(self).entries().len()
                        &&& forall|j: int|
                            0 <= j < old(self).entries().len() && j != i ==> final(self).entries()[j]
                                == old(self).entries()[j]
                        &&& fault_recorded(
                            old(self).entries()[i],
                            final(self).entries()[i],
                            reason,
                            timestamp_us,
                        )
                    },
                },
            },
    {
        match event {
            ExecutionEvent::SessionCreated { session_id, program_id, timestamp_us } => {
                match self.find(&session_id) {
                    Some(_) => {},
                    None => {
                        let h = ExecutionHistory::new(
                            session_id,
                            program_id,
                            ExecutionConfiguration::default(),
                            timestamp_us,
                        );
                        self.histories.push(h);
                        proof {
                            assert(self.histories@.drop_last() =~= old(self).histories@);
                        }
                    },
                }
            },
            ExecutionEvent::LifecycleChanged { session_id, previous, current, timestamp_us } => {
                match self.find(&session_id) {
                    None => {},
                    Some(i) => {
                        let mut h = self.histories.remove(i);
                        h.record_lifecycle(previous, current, timestamp_us);
                        self.histories.insert(i, h);
                        proof {
                            assert forall|j: int|
                                0 <= j < old(self).histories@.len() && j != i implies self.histories@[j]
                                == old(self).histories@[j] by {}
                        }
                    },
                }
            },
            ExecutionEvent::TickEvaluated { session_id, record } => {
                match self.find(&session_id) {
                    None => {},
                    Some(i) => {
                        let mut h = self.histories.remove(i);
                        h.record_tick(record);
                        self.histories.insert(i, h);
                        proof {
                            assert forall|j: int|
                                0 <= j < old(self).histories@.len() && j != i implies self.histories@[j]
                                == old(self).histories@[j] by {}
                        }
                    },
                }
            },
            ExecutionEvent::SessionFaulted { session_id, reason, timestamp_us } => {
                match self.find(&session_id) {
                    None => {},
                    Some(i) => {
                        let mut h = self.histories.remove(i);
                        h.record_fault(reason, timestamp_us);
                        self.histories.insert(i, h);
                        proof {
                            assert forall|j: int|
                                0 <= j < old(self).histories@.len() && j != i implies self.histories@[j]
                                == old(self).histories@[j] by {}
                        }
                    },
                }
            },
        }
    }
}

proof fn lemma_history_index_bounds<R>(hs: Seq<ExecutionHistory<R>>, id: Seq<char>)
    ensures
        history_index(hs, id) matches Some(i) ==> 0 <= i < hs.len() && hs[i].session_id.0@ == id,
    decreases hs.len(),
{
    if hs.len() > 0 {
        lemma_history_index_bounds(hs.drop_last(), id);
    }
}

proof fn lemma_history_index_prefix<R>(hs: Seq<ExecutionHistory<R>>, id: Seq<char>, k: int)
    requires
        1 <= k <= hs.len(),
        history_index(hs.take(k - 1), id) is None,
        hs[k - 1].session_id.0@ == id,
    ensures
        history_index(hs, id) == Some(k - 1),
    decreases hs.len() - k,
{
    assert(hs.take(k).drop_last() =~= hs.take(k - 1));
    if k < hs.len() {
        assert(hs.drop_last().take(k) =~= hs.take(k));
        assert(hs.drop_last().take(k - 1) =~= hs.take(k - 1));
        lemma_history_index_prefix(hs.drop_last(), id, k);
    } else {
        assert(hs.take(k) =~= hs);
    }
}

} // verus!
