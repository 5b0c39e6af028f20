//! A stopwatch over the monotonic clock.

use std::time::{Duration, Instant};
use vstd::prelude::*;

verus! {

/// A moment on the monotonic clock. Nothing is known of it but that it can be kept.
#[verifier::external_type_specification]
#[verifier::external_body]
pub struct ExInstant(Instant);

/// `Instant::now` reads the clock: no two readings need agree, so nothing is claimed.
pub assume_specification[ Instant::now ]() -> (now: Instant)
;

/// `Instant::elapsed` measures the time since the moment was taken, against the clock
/// as it stands at the call: nothing is claimed of the length.
pub assume_specification[ Instant::elapsed ](instant: &Instant) -> (elapsed: Duration)
;

/// Remembers a moment and tells how long ago it was.
pub struct Delta {
    instant: Instant,
}

impl Default for Delta {
    /// A stopwatch started now.
    fn default() -> (timer: Self)
    {
        Self { instant: Instant::now() }
    }
}

impl Delta {
    /// Starts the stopwatch again, from now.
    pub fn reset(&mut self)
    {
        self.instant = Instant::now()
    }

    /// The time since the stopwatch was started.
    pub fn elapsed(&self) -> (elapsed: Duration)
    {
        self.instant.elapsed()
    }
}

} // verus!
