//! The repeating spawn timer: it accumulates elapsed time against a fixed
//! interval, fires and resets its accumulator when the interval is reached,
//! and is reset to zero when a session ends.

use vstd::prelude::*;

use crate::consts::{MAX_FRAME_MS, PIPE_SPAWN_INTERVAL_MS};

verus! {

/// Accumulated elapsed time of the pipe spawn timer, in milliseconds.
/// Between frames the accumulator always lies in
/// `[0, PIPE_SPAWN_INTERVAL_MS)`.
#[derive(Clone, Copy, Debug, PartialEq, Eq, Structural)]
pub struct PipeSpawnTimer {
    pub elapsed_ms: i64,
}

/// A timer accumulator the ticking can have produced.
pub open spec fn timer_wf(elapsed_ms: int) -> bool {
    0 <= elapsed_ms < PIPE_SPAWN_INTERVAL_MS
}

/// Whether advancing the accumulator by `dt_ms` reaches the interval.
pub open spec fn timer_fires(elapsed_ms: int, dt_ms: int) -> bool {
    elapsed_ms + dt_ms >= PIPE_SPAWN_INTERVAL_MS
}

impl PipeSpawnTimer {
    /// A fresh timer with an empty accumulator.
    pub fn new() -> (t: PipeSpawnTimer)
        ensures
            t.elapsed_ms == 0,
    {
        PipeSpawnTimer { elapsed_ms: 0 }
    }

    /// Advances the accumulator by the elapsed time; reports whether the
    /// interval was reached, in which case the accumulator starts over.
    pub fn tick(&mut self, dt_ms: i64) -> (fired: bool)
        requires
            0 <= dt_ms <= MAX_FRAME_MS,
            timer_wf(old(self).elapsed_ms as int),
        ensures
            fired == timer_fires(old(self).elapsed_ms as int, dt_ms as int),
            final(self).elapsed_ms == if fired {
                0int
            } else {
                old(self).elapsed_ms + dt_ms
            },
            timer_wf(final(self).elapsed_ms as int),
    {
        let total = self.elapsed_ms + dt_ms;
        if total >= PIPE_SPAWN_INTERVAL_MS {
            self.elapsed_ms = 0;
            true
        } else {
            self.elapsed_ms = total;
            false
        }
    }
}

/// Resets the timer's accumulator to zero, as happens when a session ends.
pub fn reset_timer(timer: &mut PipeSpawnTimer)
    ensures
        final(timer).elapsed_ms == 0,
{
    timer.elapsed_ms = 0;
}

} // verus!
