//! A lap timer over a monotonic clock read in nanoseconds.

use vstd::prelude::*;

verus! {

/// Measures the time between successive readings of a monotonic clock.
/// Clock readings are nanosecond counts from an origin of the caller's choice.
pub struct Timer {
    start: Option<u64>,
}

/// The time from `start` to `now`, and zero when `now` lies before `start`.
pub open spec fn elapsed_between(start: u64, now: u64) -> u64 {
    if now >= start {
        (now - start) as u64
    } else {
        0
    }
}

impl Timer {
    /// The reading at which the current lap began, if one is running.
    pub closed spec fn started_at(&self) -> Option<u64> {
        self.start
    }

    /// A timer with no lap running.
    pub fn new() -> (timer: Self)
        ensures
            timer.started_at().is_none(),
    {
        Self { start: None }
    }

    /// Ends the running lap at `now` and begins the next one there. Returns
    /// the length of the lap that ended; a timer that was not running starts
    /// its first lap and reports zero.
    pub fn progress(&mut self, now: u64) -> (lap: u64)
        ensures
            final(self).started_at() == Some(now),
            lap == match old(self).started_at() {
                Some(start) => elapsed_between(start, now),
                None => 0,
            },
        no_unwind
    {
        let lap: u64 = match self.start {
            Some(start) => if now >= start {
                now - start
            } else {
                0
            },
            None => 0,
        };
        self.start = Some(now);
        lap
    }

    /// Stops the timer: the next call of `progress` starts a first lap.
    pub fn reset(&mut self)
        ensures
            final(self).started_at().is_none(),
        no_unwind
    {
        self.start = None;
    }
}

impl Default for Timer {
    fn default() -> (timer: Self)
        ensures
            timer.started_at().is_none(),
    {
        Self::new()
    }
}

} // verus!
