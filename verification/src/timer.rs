use vstd::prelude::*;
use crate::timefmt::{spec_time_format, time_format};

verus! {

#[verifier::external_type_specification]
#[verifier::external_body]
pub struct ExInstant(std::time::Instant);

/// Relies on std::time::Instant::now: a reading of the monotonic clock.
/// Nothing can be promised of a clock reading.
pub assume_specification[ std::time::Instant::now ]() -> (r: std::time::Instant);

/// Relies on std::time::Instant::elapsed: the time since `start`, again a
/// clock-dependent quantity of which nothing is promised.
pub assume_specification[ std::time::Instant::elapsed ](start: &std::time::Instant) -> (r:
    core::time::Duration);

/// Relies on core::time::Duration::as_millis: the duration in whole
/// milliseconds; the value depends on the duration alone but is left
/// unconstrained, as callers only format whatever came back.
pub assume_specification[ core::time::Duration::as_millis ](d: &core::time::Duration) -> (r: u128);

/// Wall-clock stopwatch around the stages of an experiment run.
pub struct Timer {
    pub start: std::time::Instant,
}

impl Timer {
    /// Starts the stopwatch.
    pub fn new() -> Timer {
        Timer { start: std::time::Instant::now() }
    }

    /// Whole milliseconds elapsed since the stopwatch started, saturated at
    /// the largest representable count. A clock reading promises nothing.
    pub fn elapsed_ms(&self) -> u64 {
        let m = self.start.elapsed().as_millis();
        if m > u64::MAX as u128 {
            u64::MAX
        } else {
            m as u64
        }
    }

    /// The elapsed time rendered for humans: whatever the clock read, the
    /// result is that reading formatted as `spec_time_format` states.
    pub fn elapsed_str(&self) -> (r: String)
        ensures
            exists|ms: nat| r@ == spec_time_format(ms),
    {
        let ms = self.elapsed_ms();
        let r = time_format(ms);
        proof {
            assert(r@ == spec_time_format(ms as nat));
        }
        r
    }
}

} // verus!
