//! Repeating interval timers driving the move and food ticks.
//!
//! A timer accumulates the per-frame elapsed time; when the
//! accumulated time reaches the interval it fires for that frame and
//! starts over from zero. Time is carried in whole milliseconds.

use vstd::prelude::*;
use crate::config::ConfigError;

verus! {

/// A repeating timer: fires once each time `interval_ms` of elapsed
/// time has accumulated, then restarts from zero.
#[derive(Copy, Clone, Debug, PartialEq, Eq, Structural)]
pub struct IntervalTimer {
    /// How much time must accumulate before the timer fires. Always
    /// at least one millisecond.
    pub interval_ms: u64,
    /// Time accumulated since the last firing.
    pub elapsed_ms: u64,
    /// Whether the timer fired on the most recent tick.
    pub fired: bool,
}

impl IntervalTimer {
    /// A usable timer has a positive interval.
    pub open spec fn valid(self) -> bool {
        self.interval_ms >= 1
    }

    /// The timer after one tick of `delta_ms`: the elapsed time grows
    /// (saturating at the largest representable value); reaching the
    /// interval fires the timer and resets the count to zero.
    pub open spec fn ticked_spec(self, delta_ms: u64) -> IntervalTimer {
        let e: u64 = if self.elapsed_ms + delta_ms <= u64::MAX {
            (self.elapsed_ms + delta_ms) as u64
        } else {
            u64::MAX
        };
        if e >= self.interval_ms {
            IntervalTimer { elapsed_ms: 0, fired: true, ..self }
        } else {
            IntervalTimer { elapsed_ms: e, fired: false, ..self }
        }
    }

    /// Build a timer, rejecting a zero interval: it would fire on
    /// every frame forever without measuring anything.
    pub fn new(interval_ms: u64) -> (r: Result<IntervalTimer, ConfigError>)
        ensures
            interval_ms >= 1 ==> r == Ok::<IntervalTimer, ConfigError>(
                IntervalTimer { interval_ms, elapsed_ms: 0, fired: false },
            ),
            interval_ms == 0 ==> r == Err::<IntervalTimer, ConfigError>(
                ConfigError::NonPositiveInterval,
            ),
    {
        if interval_ms >= 1 {
            Ok(IntervalTimer { interval_ms, elapsed_ms: 0, fired: false })
        } else {
            Err(ConfigError::NonPositiveInterval)
        }
    }

    /// Advance the timer by one frame's elapsed time.
    pub fn tick(&mut self, delta_ms: u64)
        ensures
            *final(self) == old(self).ticked_spec(delta_ms),
    {
        let e: u64 = if delta_ms <= u64::MAX - self.elapsed_ms {
            self.elapsed_ms + delta_ms
        } else {
            u64::MAX
        };
        if e >= self.interval_ms {
            self.elapsed_ms = 0;
            self.fired = true;
        } else {
            self.elapsed_ms = e;
            self.fired = false;
        }
    }
}

} // verus!
