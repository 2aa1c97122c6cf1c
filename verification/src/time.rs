//! Time keeping for animations and transitions, in whole nanoseconds.
//!
//! A duration is held as its number of nanoseconds. The largest duration is
//! the one of `std::time::Duration::MAX`; adding past it saturates.

use vstd::prelude::*;

verus! {

/// Number of nanoseconds in `std::time::Duration::MAX`.
pub const MAX_DURATION_NANOS: u128 = 18_446_744_073_709_551_615_999_999_999;

/// Nanoseconds in one millisecond.
pub const NANOS_PER_MILLI: u128 = 1_000_000;

/// Nanoseconds in one second.
pub const NANOS_PER_SEC: u128 = 1_000_000_000;

/// `a + b`, saturating at the largest duration.
pub open spec fn saturating_duration_add(a: int, b: int) -> int {
    if a + b > MAX_DURATION_NANOS {
        MAX_DURATION_NANOS as int
    } else {
        a + b
    }
}

/// Adds two durations, saturating at the largest duration.
pub fn duration_saturating_add(a: u128, b: u128) -> (r: u128)
    requires
        a <= MAX_DURATION_NANOS,
        b <= MAX_DURATION_NANOS,
    ensures
        r == saturating_duration_add(a as int, b as int),
{
    if a > MAX_DURATION_NANOS - b {
        MAX_DURATION_NANOS
    } else {
        a + b
    }
}

/// Tracks elapsed time; while paused, ticks do not advance it.
#[derive(Debug, Clone, Copy, PartialEq, Eq, Structural)]
pub struct Stopwatch {
    /// Elapsed nanoseconds.
    pub elapsed: u128,
    /// Whether ticks are ignored.
    pub paused: bool,
}

impl Stopwatch {
    /// The stopwatch's invariant.
    pub open spec fn wf(self) -> bool {
        self.elapsed <= MAX_DURATION_NANOS
    }

    /// The stopwatch after a tick of `delta` nanoseconds.
    pub open spec fn ticked(self, delta: int) -> Stopwatch {
        if self.paused {
            self
        } else {
            Stopwatch { elapsed: saturating_duration_add(self.elapsed as int, delta) as u128, ..self }
        }
    }

    /// A running stopwatch at zero.
    pub fn new() -> (r: Stopwatch)
        ensures
            r.elapsed == 0,
            !r.paused,
            r.wf(),
    {
        Stopwatch { elapsed: 0, paused: false }
    }

    /// Elapsed nanoseconds.
    pub fn elapsed(&self) -> (r: u128)
        ensures
            r == self.elapsed,
    {
        self.elapsed
    }

    /// Sets the elapsed time.
    pub fn set_elapsed(&mut self, time: u128)
        ensures
            *final(self) == (Stopwatch { elapsed: time, ..*old(self) }),
    {
        self.elapsed = time;
    }

    /// Advances the stopwatch by `delta` unless it is paused.
    pub fn tick(&mut self, delta: u128)
        requires
            old(self).wf(),
            delta <= MAX_DURATION_NANOS,
        ensures
            *final(self) == old(self).ticked(delta as int),
            final(self).wf(),
    {
        if !self.paused {
            self.elapsed = duration_saturating_add(self.elapsed, delta);
        }
    }

    /// Stops counting time.
    pub fn pause(&mut self)
        ensures
            *final(self) == (Stopwatch { paused: true, ..*old(self) }),
    {
        self.paused = true;
    }

    /// Resumes counting time.
    pub fn unpause(&mut self)
        ensures
            *final(self) == (Stopwatch { paused: false, ..*old(self) }),
    {
        self.paused = false;
    }

    /// Whether the stopwatch is paused.
    pub fn is_paused(&self) -> (r: bool)
        ensures
            r == self.paused,
    {
        self.paused
    }
}

/// A timer that runs once: it counts up to its duration and then stays finished.
#[derive(Debug, Clone, Copy, PartialEq, Eq, Structural)]
pub struct OnceTimer {
    /// The elapsed time.
    pub stopwatch: Stopwatch,
    /// When the timer finishes.
    pub duration: u128,
    /// Whether the timer has reached its duration.
    pub finished: bool,
}

impl OnceTimer {
    /// The timer's invariant.
    pub open spec fn wf(self) -> bool {
        &&& self.stopwatch.wf()
        &&& self.duration <= MAX_DURATION_NANOS
        &&& self.stopwatch.elapsed <= self.duration
        &&& self.finished ==> self.stopwatch.elapsed == self.duration
    }

    /// The timer after a tick of `delta` nanoseconds.
    pub open spec fn ticked(self, delta: int) -> OnceTimer {
        if self.stopwatch.paused || self.finished {
            self
        } else {
            let sw = self.stopwatch.ticked(delta);
            if sw.elapsed >= self.duration {
                OnceTimer {
                    stopwatch: Stopwatch { elapsed: self.duration, ..sw },
                    finished: true,
                    ..self
                }
            } else {
                OnceTimer { stopwatch: sw, finished: false, ..self }
            }
        }
    }

    /// A timer at zero that finishes after `duration` nanoseconds.
    pub fn new(duration: u128) -> (r: OnceTimer)
        requires
            duration <= MAX_DURATION_NANOS,
        ensures
            r.stopwatch.elapsed == 0,
            !r.stopwatch.paused,
            r.duration == duration,
            !r.finished,
            r.wf(),
    {
        OnceTimer { stopwatch: Stopwatch::new(), duration, finished: false }
    }

    /// Elapsed nanoseconds.
    pub fn elapsed(&self) -> (r: u128)
        ensures
            r == self.stopwatch.elapsed,
    {
        self.stopwatch.elapsed
    }

    /// Whether the timer has reached its duration.
    pub fn is_finished(&self) -> (r: bool)
        ensures
            r == self.finished,
    {
        self.finished
    }

    /// Advances the timer by `delta`.
    pub fn tick(&mut self, delta: u128)
        requires
            old(self).wf(),
            delta <= MAX_DURATION_NANOS,
        ensures
            *final(self) == old(self).ticked(delta as int),
            final(self).wf(),
    {
        if self.stopwatch.is_paused() {
            return;
        }
        if self.finished {
            return;
        }
        self.stopwatch.tick(delta);
        self.finished = self.stopwatch.elapsed() >= self.duration;
        if self.finished {
            self.stopwatch.set_elapsed(self.duration);
        }
    }
}

} // verus!
