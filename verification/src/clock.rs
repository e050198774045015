//! The pacing primitive: how long a tick is owed before the next may
//! start. The target period is 16 666 microseconds, about 60 Hz. Reading
//! the wall clock is trusted; the pacing rule itself is verified. The
//! blocking wait lives with the host, which alone may sleep.

use vstd::prelude::*;

use crate::ext::elapsed_us;
use crate::ext::instant_now;

verus! {

/// Target tick period in microseconds: about 60 Hz.
pub const INTERVAL_US: u64 = 16_666;

/// A monotonic stopwatch for one tick.
pub struct Clock {
    start_time: std::time::Instant,
}

impl Clock {
    pub fn new() -> (clock: Clock) {
        Clock { start_time: instant_now() }
    }

    /// Mark the start of a tick.
    pub fn start(&mut self) {
        self.start_time = instant_now();
    }

    /// Microseconds the current tick is still owed: the rest of the period,
    /// or nothing when the tick ran over it. A late tick is never caught
    /// up, so one slow tick cannot start a backlog spiral.
    pub fn remaining_us(&self) -> (r: u64)
        ensures
            r <= INTERVAL_US,
    {
        let e = elapsed_us(&self.start_time);
        pacing_wait_us(e)
    }
}

/// The pacing rule: a tick that took `elapsed` microseconds is owed exactly
/// the rest of its period, and nothing once it ran over.
pub fn pacing_wait_us(elapsed: u64) -> (r: u64)
    ensures
        elapsed < INTERVAL_US ==> r == INTERVAL_US - elapsed,
        elapsed >= INTERVAL_US ==> r == 0,
{
    if elapsed < INTERVAL_US {
        INTERVAL_US - elapsed
    } else {
        0
    }
}

} // verus!
