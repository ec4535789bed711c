//! Time stamps of evaluated ticks and the records kept of a session's
//! history.

use vstd::prelude::*;
use crate::lifecycle::LifecycleState;
use std::time::Duration;

verus! {

/// The three clocks of a tick: when the sample was taken at its source,
/// when the runtime received it and when the tick was evaluated
/// (microseconds since the UNIX epoch).
#[derive(Debug, Clone, Copy, PartialEq, Eq, Structural)]
pub struct TemporalInvariants {
    pub sampled_at_us: u64,
    pub received_at_us: u64,
    pub evaluated_at_us: u64,
}

/// `std::time::SystemTime`: a reading of the system clock.
#[verifier::external_type_specification]
#[verifier::external_body]
pub struct ExSystemTime(std::time::SystemTime);

/// `std::time::SystemTimeError`: a clock reading earlier than the time it
/// was measured from.
#[verifier::external_type_specification]
#[verifier::external_body]
pub struct ExSystemTimeError(std::time::SystemTimeError);

/// Calls `std::time::SystemTime::now`. Nothing is claimed of the reading:
/// it is whatever the system clock shows.
#[verifier::external_body]
fn system_now() -> (t: std::time::SystemTime) {
    std::time::SystemTime::now()
}

/// Calls `SystemTime::duration_since` with `std::time::UNIX_EPOCH`: the
/// time elapsed since the epoch, or an error for a reading before it.
/// Nothing is claimed of which comes back: it depends on the clock.
#[verifier::external_body]
fn since_unix_epoch(t: &std::time::SystemTime) -> (r: Result<
    Duration,
    std::time::SystemTimeError,
>) {
    t.duration_since(std::time::UNIX_EPOCH)
}

/// Calls `Duration::as_micros`: the whole microseconds of `d`. The value is
/// left unstated, as `Duration` is opaque here.
#[verifier::external_body]
fn duration_micros(d: &Duration) -> (m: u128) {
    d.as_micros()
}

/// Microseconds since the UNIX epoch by the system clock: 0 for a clock set
/// before the epoch, otherwise the count cut to its low 64 bits.
fn now_unix_micros() -> (t: u64) {
    let now = system_now();
    match since_unix_epoch(&now) {
        Ok(d) => {
            let micros = duration_micros(&d);
            micros as u64
        },
        Err(_) => 0,
    }
}

impl TemporalInvariants {
    pub fn new(sampled_at_us: u64, received_at_us: u64, evaluated_at_us: u64) -> (t: Self)
        ensures
            t.sampled_at_us == sampled_at_us,
            t.received_at_us == received_at_us,
            t.evaluated_at_us == evaluated_at_us,
    {
        TemporalInvariants { sampled_at_us, received_at_us, evaluated_at_us }
    }

    /// Stamps for a sample taken at `sampled_at_us` and received and
    /// evaluated now.
    pub fn current(sampled_at_us: u64) -> (t: Self)
        ensures
            t.sampled_at_us == sampled_at_us,
            t.received_at_us == t.evaluated_at_us,
    {
        let now_us = now_unix_micros();
        TemporalInvariants { sampled_at_us, received_at_us: now_us, evaluated_at_us: now_us }
    }
}

/// Record of a lifecycle transition.
#[derive(Debug, PartialEq, Eq)]
pub struct HistoricalLifecycleTransition {
    pub previous: LifecycleState,
    pub current: LifecycleState,
    pub timestamp_us: u64,
}

/// Record of a fault during a session.
#[derive(Debug, PartialEq, Eq)]
pub struct HistoricalFaultRecord {
    pub tick_index: u64,
    pub reason: String,
    pub timestamp_us: u64,
}

/// Errors of the execution loop.
#[derive(Debug, PartialEq, Eq)]
pub enum ExecutionLoopError {
    SessionNotFound(String),
    TickFailed(String),
}

} // verus!
