//! Decisions of the runtime-owned execution loop: before each tick, whether
//! to finish, wait or tick; after it, whether to finish, complete a
//! run-once session, or go on. The driver owns the clock and the tick itself.

use vstd::prelude::*;
use crate::events::ExecutionLoopError;
use crate::lifecycle::{lifecycle_is_terminal, Cardinality, ExecutionSessionId, LifecycleState, TickOutcome};

verus! {

/// What the loop driver does next.
#[derive(Debug, Clone, Copy, PartialEq, Eq, Structural)]
pub enum LoopStep {
    /// Leave the loop: the session ended.
    Finish,
    /// Sleep one tick interval, then decide again.
    Wait,
    /// Run one tick of the session.
    Tick,
    /// Complete the run-once session (publishing its change from `Running`
    /// to `Completed`), then leave the loop.
    CompleteOnce,
}

/// The verdict before a tick on a session in lifecycle state `state` (none
/// when the session is not registered).
pub open spec fn step_before(state: Option<LifecycleState>) -> Option<LoopStep> {
    match state {
        None => None,
        Some(s) => if lifecycle_is_terminal(s) {
            Some(LoopStep::Finish)
        } else if s is Running {
            Some(LoopStep::Tick)
        } else {
            Some(LoopStep::Wait)
        },
    }
}

/// State of one session's execution loop.
#[derive(Debug, Clone, Copy, PartialEq, Eq, Structural)]
pub struct ExecutionLoop {
    /// No tick has completed yet.
    pub first_tick: bool,
}

impl ExecutionLoop {
    /// A loop that has not ticked.
    pub fn new() -> (l: Self)
        ensures
            l.first_tick,
    {
        ExecutionLoop { first_tick: true }
    }

    /// Before a tick: an unregistered session is an error; an ended session
    /// finishes the loop; a session that is not running waits; a running one
    /// ticks.
    pub fn before_tick(&self, id: &ExecutionSessionId, state: Option<&LifecycleState>) -> (r:
        Result<LoopStep, ExecutionLoopError>)
        ensures
            match state {
                None => r matches Err(ExecutionLoopError::SessionNotFound(t)) && t@ == id.0@,
                Some(s) => r == Ok::<LoopStep, ExecutionLoopError>(step_before(Some(*s))->0),
            },
    {
        match state {
            None => Err(ExecutionLoopError::SessionNotFound(id.0.clone())),
            Some(s) => if s.is_terminal() {
                Ok(LoopStep::Finish)
            } else if s.is_running() {
                Ok(LoopStep::Tick)
            } else {
                Ok(LoopStep::Wait)
            },
        }
    }

    /// After a tick with outcome `tick` (or the failure's text): a failed
    /// tick fails the loop; a completed session finishes it. After the first
    /// tick, the session's cardinality is read (none when it is no longer
    /// registered): a run-once session is completed, a vanished one is an
    /// error. Otherwise the loop waits for the next tick.
    pub fn after_tick(
        &mut self,
        id: &ExecutionSessionId,
        tick: Result<TickOutcome, String>,
        cardinality: Option<Cardinality>,
    ) -> (r: Result<LoopStep, ExecutionLoopError>)
        ensures
            match tick {
                Err(e) => r == Err::<LoopStep, ExecutionLoopError>(
                    ExecutionLoopError::TickFailed(e),
                ) && *final(self) == *old(self),
                Ok(TickOutcome::SessionCompleted) => r == Ok::<LoopStep, ExecutionLoopError>(
                    LoopStep::Finish,
                ) && *final(self) == *old(self),
                Ok(_) => {
                    &&& !final(self).first_tick
                    &&& !old(self).first_tick ==> r == Ok::<LoopStep, ExecutionLoopError>(
                        LoopStep::Wait,
                    )
                    &&& old(self).first_tick ==> match cardinality {
                        None => r matches Err(ExecutionLoopError::SessionNotFound(t)) && t@
                            == id.0@,
                        Some(Cardinality::Once) => r == Ok::<LoopStep, ExecutionLoopError>(
                            LoopStep::CompleteOnce,
                        ),
                        Some(_) => r == Ok::<LoopStep, ExecutionLoopError>(LoopStep::Wait),
                    }
                },
            },
    {
        match tick {
            Err(e) => Err(ExecutionLoopError::TickFailed(e)),
            Ok(TickOutcome::SessionCompleted) => Ok(LoopStep::Finish),
            Ok(_) => {
                if !self.first_tick {
                    return Ok(LoopStep::Wait);
                }
                self.first_tick = false;
                match cardinality {
                    None => Err(ExecutionLoopError::SessionNotFound(id.0.clone())),
                    Some(Cardinality::Once) => Ok(LoopStep::CompleteOnce),
                    Some(_) => Ok(LoopStep::Wait),
                }
            },
        }
    }
}

} // verus!
