//! Timing of a property transition: a delay, then a run of fixed duration,
//! measured by a timer that stops at their sum. Interpolating the values is
//! left to the caller: [`Transition::sample_point`] says where the transition
//! stands.

use vstd::prelude::*;
use crate::time::{saturating_duration_add, OnceTimer, Stopwatch, MAX_DURATION_NANOS};

verus! {

/// Options of a transition; durations in nanoseconds, `E` the timing function.
#[derive(Debug, Clone, PartialEq, Eq)]
pub struct TransitionOptions<E> {
    /// Delay before the transition starts.
    pub initial_delay: u128,
    /// Duration of the transition.
    pub duration: u128,
    /// Timing function.
    pub timing_function: E,
}

/// The state of a transition.
#[derive(Debug, Clone, Copy, PartialEq, Eq, Structural)]
pub enum TransitionState {
    /// Created, or still in its delay.
    Pending,
    /// Running: its time has not run out.
    Running,
    /// Over; it should be removed.
    Finished,
    /// Canceled; it should be removed.
    Canceled,
}

/// Where a transition stands on its interpolation curve.
#[derive(Debug, Clone, Copy, PartialEq, Eq, Structural)]
pub enum TransitionPoint {
    /// At its start value: still pending or in its delay.
    Start,
    /// `elapsed` past the delay, out of `duration`; the interpolation is at
    /// `elapsed / duration` (undefined when both are zero).
    Progress {
        /// Time elapsed past the delay.
        elapsed: u128,
        /// Duration of the transition.
        duration: u128,
    },
}

/// A transition that has not started, with this delay and duration.
pub open spec fn fresh_transition(initial_delay: u128, duration: u128) -> Transition {
    Transition {
        initial_delay,
        duration,
        timer: OnceTimer {
            stopwatch: Stopwatch { elapsed: 0, paused: false },
            duration: (initial_delay + duration) as u128,
            finished: false,
        },
        state: TransitionState::Pending,
    }
}

/// The timing of a property transition.
#[derive(Debug, Clone, Copy, PartialEq, Eq, Structural)]
pub struct Transition {
    /// Delay before the transition starts.
    pub initial_delay: u128,
    /// Duration of the transition.
    pub duration: u128,
    /// Timer running over the delay and the duration.
    pub timer: OnceTimer,
    /// State of the transition.
    pub state: TransitionState,
}

impl Transition {
    /// The invariant of a transition.
    pub open spec fn wf(self) -> bool {
        &&& self.timer.wf()
        &&& self.timer.duration == self.initial_delay + self.duration
        &&& (self.state == TransitionState::Pending || self.state == TransitionState::Running) ==> !self.timer.finished
    }

    /// Whether a tick can change the transition.
    pub open spec fn tickable(self) -> bool {
        self.state == TransitionState::Pending || self.state == TransitionState::Running
    }

    /// The transition after a tick of `delta`.
    pub open spec fn ticked(self, delta: int) -> Transition {
        if !self.tickable() {
            self
        } else {
            let timer = self.timer.ticked(delta);
            Transition {
                timer,
                state: if timer.finished {
                    TransitionState::Finished
                } else if self.state == TransitionState::Pending && timer.stopwatch.elapsed >= self.initial_delay {
                    TransitionState::Running
                } else {
                    self.state
                },
                ..self
            }
        }
    }

    /// Time elapsed past the delay.
    pub open spec fn elapsed_spec(self) -> int {
        if self.timer.stopwatch.elapsed >= self.initial_delay {
            self.timer.stopwatch.elapsed - self.initial_delay
        } else {
            0
        }
    }

    /// Where the transition stands.
    pub open spec fn point(self) -> TransitionPoint {
        if self.timer.stopwatch.elapsed < self.initial_delay || self.state == TransitionState::Pending {
            TransitionPoint::Start
        } else {
            TransitionPoint::Progress {
                elapsed: (self.timer.stopwatch.elapsed - self.initial_delay) as u128,
                duration: self.duration,
            }
        }
    }

    /// A pending transition with the delay and duration of `options`.
    pub fn new<E>(options: &TransitionOptions<E>) -> (r: Transition)
        requires
            options.initial_delay + options.duration <= MAX_DURATION_NANOS,
        ensures
            r == fresh_transition(options.initial_delay, options.duration),
            r.initial_delay == options.initial_delay,
            r.duration == options.duration,
            r.state == TransitionState::Pending,
            r.timer.stopwatch.elapsed == 0,
            !r.timer.stopwatch.paused,
            r.wf(),
    {
        Transition {
            initial_delay: options.initial_delay,
            duration: options.duration,
            timer: OnceTimer::new(options.duration + options.initial_delay),
            state: TransitionState::Pending,
        }
    }

    /// Time elapsed past the delay, in nanoseconds.
    pub fn elapsed(&self) -> (r: u128)
        ensures
            r == self.elapsed_spec(),
    {
        let elapsed = self.timer.elapsed();
        if elapsed >= self.initial_delay {
            elapsed - self.initial_delay
        } else {
            0
        }
    }

    /// Whether the transition emits a value.
    pub fn is_active(&self) -> (r: bool)
        ensures
            r == self.tickable(),
    {
        self.state == TransitionState::Pending || self.state == TransitionState::Running
    }

    /// Whether ticks can still change the transition.
    pub fn can_be_ticked(&self) -> (r: bool)
        ensures
            r == self.tickable(),
    {
        self.state == TransitionState::Pending || self.state == TransitionState::Running
    }

    /// Advances the transition by `delta` nanoseconds.
    pub fn tick(&mut self, delta: u128)
        requires
            old(self).wf(),
            delta <= MAX_DURATION_NANOS,
        ensures
            *final(self) == old(self).ticked(delta as int),
            final(self).wf(),
    {
        if !self.can_be_ticked() {
            return;
        }
        self.timer.tick(delta);
        if self.timer.is_finished() {
            self.state = TransitionState::Finished;
        } else if self.state == TransitionState::Pending && self.timer.elapsed() >= self.initial_delay {
            self.state = TransitionState::Running;
        }
    }

    /// Where to sample the interpolation.
    pub fn sample_point(&self) -> (r: TransitionPoint)
        ensures
            r == self.point(),
    {
        let elapsed = self.timer.elapsed();
        if elapsed < self.initial_delay || self.state == TransitionState::Pending {
            TransitionPoint::Start
        } else {
            TransitionPoint::Progress { elapsed: elapsed - self.initial_delay, duration: self.duration }
        }
    }
}

/// A transition that is over or canceled ignores ticks.
pub proof fn lemma_ended_transition_ignores_ticks(t: Transition, delta: int)
    requires
        t.state == TransitionState::Finished || t.state == TransitionState::Canceled,
    ensures
        t.ticked(delta) == t,
{
}

/// The time a transition reports past its delay never exceeds its duration.
pub proof fn lemma_elapsed_within_duration(t: Transition)
    requires
        t.wf(),
    ensures
        t.elapsed_spec() <= t.duration,
{
}

/// A tick of a running transition that is not paused moves it forward by
/// exactly `delta`, and it is finished exactly when it reaches its end.
pub proof fn lemma_transition_tick_advances(t: Transition, delta: int)
    requires
        t.wf(),
        t.state == TransitionState::Running,
        !t.timer.stopwatch.paused,
        delta >= 0,
        t.timer.stopwatch.elapsed + delta <= MAX_DURATION_NANOS,
    ensures
        t.ticked(delta).timer.stopwatch.elapsed == if t.timer.stopwatch.elapsed + delta >= t.timer.duration {
            t.timer.duration as int
        } else {
            t.timer.stopwatch.elapsed + delta
        },
        t.ticked(delta).state == TransitionState::Finished
            <==> t.timer.stopwatch.elapsed + delta >= t.timer.duration,
{
}

/// A tick of a pending or running transition whose clock runs: with `e` the
/// time on its clock afterwards, it is finished once `e` reaches the delay
/// plus the duration, running from the end of the delay until then, and
/// keeps its state before.
pub proof fn lemma_transition_tick_law(t: Transition, delta: int)
    requires
        t.wf(),
        t.tickable(),
        !t.timer.stopwatch.paused,
        delta >= 0,
    ensures
        ({
            let e = saturating_duration_add(t.timer.stopwatch.elapsed as int, delta);
            let b = t.ticked(delta);
            &&& e >= t.initial_delay + t.duration ==> b.state == TransitionState::Finished
            &&& t.initial_delay <= e < t.initial_delay + t.duration ==> b.state == TransitionState::Running
            &&& e < t.initial_delay ==> b.state == t.state
        }),
{
}

} // verus!

