//! The rate governor: how long a tick has to pause to hold the target rate.

use vstd::prelude::*;

verus! {

/// Caps the number of ticks per second.
pub struct FrameRate {}

/// The whole milliseconds of one tick at `fps` ticks per second.
pub open spec fn period_millis(fps: u64) -> int {
    1000int / (fps as int)
}

/// What is left of the period after `delta` milliseconds: nothing once the period is
/// used up. At a rate of zero the period has no end, and the pause is the longest
/// there is.
pub open spec fn pause_millis(fps: u64, delta: u128) -> int {
    if fps == 0 {
        u64::MAX as int
    } else if period_millis(fps) > delta {
        period_millis(fps) - delta
    } else {
        0
    }
}

impl FrameRate {
    /// The milliseconds to sleep after a tick that took `delta` milliseconds, so that
    /// ticks come at most `fps` times per second. A tick that used up its period gets
    /// no sleep; nothing is made up for later.
    pub fn cap(fps: u64, delta: u128) -> (pause: u64)
        ensures
            pause == pause_millis(fps, delta),
    {
        if fps == 0 {
            return u64::MAX;
        }
        let target: u64 = 1000 / fps;
        if (target as u128) > delta {
            target - (delta as u64)
        } else {
            0
        }
    }
}

/// A tick that took its whole period or more gets no pause.
pub proof fn lemma_slow_tick_free_runs(fps: u64, delta: u128)
    requires
        fps > 0,
        delta >= period_millis(fps),
    ensures
        pause_millis(fps, delta) == 0,
{
}

/// Pause and time spent add up to the period whenever the tick was faster than it.
pub proof fn lemma_pause_fills_period(fps: u64, delta: u128)
    requires
        fps > 0,
        delta < period_millis(fps),
    ensures
        pause_millis(fps, delta) + delta == period_millis(fps),
        0 < pause_millis(fps, delta) <= 1000,
{
    assert(1000int / (fps as int) <= 1000) by (nonlinear_arith)
        requires
            fps > 0,
    ;
}

} // verus!
