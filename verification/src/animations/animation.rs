//! Timing of a single keyframes animation.
//!
//! An animation runs through an optional initial delay and then through its
//! iterations. All times are whole nanoseconds. The animation keeps the
//! iteration it is on and the time elapsed inside it; the *timeline
//! position* is the time elapsed since the animation started, delay included.
//! Iteration `c` starts at `base(c)` and lasts `iter_time(c)`: the first one
//! also holds the initial delay.
//!
//! Sampling the keyframes curve is left to the caller: [`Animation::sample_point`]
//! says where on the curve the animation stands, if anywhere.

use vstd::prelude::*;
use crate::time::{Stopwatch, saturating_duration_add, MAX_DURATION_NANOS, NANOS_PER_MILLI};

verus! {

/// Sets whether an animation plays forward, backward, or alternates between the two
/// (CSS `animation-direction`).
#[derive(Debug, Clone, Copy, PartialEq, Eq, Structural, Default)]
pub enum AnimationDirection {
    /// Every iteration plays forwards.
    #[default]
    Normal,
    /// Every iteration plays backwards.
    Reverse,
    /// Iterations alternate, the first one playing forwards.
    Alternate,
    /// Iterations alternate, the first one playing backwards.
    AlternateReverse,
}

/// The number of times an animation cycle is played (CSS `animation-iteration-count`).
#[derive(Debug, Clone, Copy, PartialEq, Eq, Structural)]
pub enum IterationCount {
    /// A fixed number of iterations.
    Count(u32),
    /// The animation repeats forever.
    Infinite,
}

/// The state of an animation or a transition.
#[derive(Debug, Clone, Copy, PartialEq, Eq, Structural)]
pub enum AnimationState {
    /// Created, or still in the initial delay. Emits a value only with a backwards fill mode.
    Pending,
    /// Running: time and iterations are not depleted. Always emits a value.
    Running,
    /// Has just run out of time and iterations. Emits a value; the next tick that
    /// advances time moves it to `Finished`. Infinite animations never get here.
    JustFinished,
    /// Finished. Emits a value only with a forwards fill mode.
    Finished,
    /// Canceled: emits nothing and ignores ticks.
    Canceled,
}

/// Whether an animation is playing (CSS `animation-play-state`).
#[derive(Debug, Clone, Copy, PartialEq, Eq, Structural, Default)]
pub enum AnimationPlayState {
    /// The animation is playing.
    #[default]
    Running,
    /// The animation is paused.
    Paused,
}

/// How an animation fills values while it is not running (CSS `animation-fill-mode`).
#[derive(Debug, Clone, Copy, PartialEq, Eq, Structural, Default)]
pub enum AnimationFillMode {
    /// No value outside of the run (CSS `none`).
    #[default]
    NoFill,
    /// After the run, the last keyframe reached stays.
    Forwards,
    /// During the delay, the first keyframe is applied.
    Backwards,
    /// Both forwards and backwards.
    Both,
}

/// Whether a fill mode keeps the last value after the run.
pub open spec fn fills_forwards(f: AnimationFillMode) -> bool {
    f == AnimationFillMode::Forwards || f == AnimationFillMode::Both
}

/// Whether a fill mode applies the first value during the delay.
pub open spec fn fills_backwards(f: AnimationFillMode) -> bool {
    f == AnimationFillMode::Backwards || f == AnimationFillMode::Both
}

impl AnimationFillMode {
    /// Whether the last keyframe reached keeps being emitted once the animation finished.
    pub fn is_forwards(self) -> (r: bool)
        ensures
            r == fills_forwards(self),
    {
        self == AnimationFillMode::Forwards || self == AnimationFillMode::Both
    }

    /// Whether the first keyframe is emitted while the animation has not started.
    pub fn is_backwards(self) -> (r: bool)
        ensures
            r == fills_backwards(self),
    {
        self == AnimationFillMode::Backwards || self == AnimationFillMode::Both
    }
}

/// Options of an animation; durations are in nanoseconds.
#[derive(Debug, Clone, Copy, PartialEq, Eq, Structural)]
pub struct AnimationOptions {
    /// Delay before the first iteration.
    pub initial_delay: u128,
    /// Duration of each iteration.
    pub duration: u128,
    /// Direction of the animation.
    pub direction: AnimationDirection,
    /// Number of iterations.
    pub iteration_count: IterationCount,
    /// Fill mode.
    pub fill_mode: AnimationFillMode,
    /// Play state.
    pub play_state: AnimationPlayState,
}

impl Default for AnimationOptions {
    /// No delay, zero duration, one forward iteration without fill, running.
    fn default() -> (r: AnimationOptions)
        ensures
            r.initial_delay == 0,
            r.duration == 0,
            r.direction == AnimationDirection::Normal,
            r.iteration_count == IterationCount::Count(1),
            r.fill_mode == AnimationFillMode::NoFill,
            r.play_state == AnimationPlayState::Running,
    {
        AnimationOptions {
            initial_delay: 0,
            duration: 0,
            direction: AnimationDirection::Normal,
            iteration_count: IterationCount::Count(1),
            fill_mode: AnimationFillMode::NoFill,
            play_state: AnimationPlayState::Running,
        }
    }
}

impl Default for IterationCount {
    /// One iteration.
    fn default() -> (r: IterationCount)
        ensures
            r == IterationCount::Count(1),
    {
        IterationCount::Count(1)
    }
}

impl From<u32> for IterationCount {
    fn from(value: u32) -> (r: IterationCount) {
        IterationCount::Count(value)
    }
}

impl vstd::std_specs::convert::FromSpecImpl<u32> for IterationCount {
    open spec fn obeys_from_spec() -> bool {
        true
    }

    open spec fn from_spec(value: u32) -> IterationCount {
        IterationCount::Count(value)
    }
}

impl AnimationOptions {
    /// Options an animation can run with: the first iteration, delay included,
    /// has a representable length.
    pub open spec fn valid(self) -> bool {
        self.initial_delay + self.duration <= MAX_DURATION_NANOS
    }
}

/// Where the animation stands in its iterations.
#[derive(Debug, Clone, Copy, PartialEq, Eq, Structural)]
pub enum KeyframesIterationState {
    /// Infinite iterations, with the current one.
    Infinite { current: u32 },
    /// The current iteration and the number of iterations.
    Finite { current: u32, max: u32 },
}

/// The direction the current iteration plays in.
#[derive(Debug, Clone, Copy, PartialEq, Eq, Structural)]
pub enum CurrentAnimationDirection {
    /// Forwards.
    Normal,
    /// Backwards.
    Reverse,
}

/// A point of the keyframes curve to sample: the fraction
/// `numerator / denominator` of an iteration, in `[0, 1]`, played backwards
/// (so sampled at `1 - t`) when `reversed` holds.
#[derive(Debug, Clone, Copy, PartialEq, Eq, Structural)]
pub struct SamplePoint {
    /// Numerator of the fraction.
    pub numerator: u128,
    /// Denominator of the fraction; never zero.
    pub denominator: u128,
    /// Whether the iteration plays backwards.
    pub reversed: bool,
}

/// Whether iterations of `direction` alternate.
pub open spec fn alternates(direction: AnimationDirection) -> bool {
    direction == AnimationDirection::Alternate || direction == AnimationDirection::AlternateReverse
}

/// Whether the first iteration of `direction` plays backwards.
pub open spec fn starts_reversed(direction: AnimationDirection) -> bool {
    direction == AnimationDirection::Reverse || direction == AnimationDirection::AlternateReverse
}

/// Whether iteration `c` of `direction` plays backwards.
pub open spec fn reversed_at(direction: AnimationDirection, c: int) -> bool {
    if alternates(direction) && c % 2 == 1 {
        !starts_reversed(direction)
    } else {
        starts_reversed(direction)
    }
}

/// The mathematical state of an animation.
pub struct AnimationView {
    /// State of the animation.
    pub state: AnimationState,
    /// Delay before the first iteration.
    pub initial_delay: int,
    /// Duration of each iteration.
    pub duration: int,
    /// Declared direction.
    pub direction: AnimationDirection,
    /// Fill mode.
    pub fill_mode: AnimationFillMode,
    /// Number of iterations; `None` when infinite.
    pub iterations: Option<int>,
    /// Index of the current iteration, the first being 0.
    pub current: int,
    /// Time elapsed in the current iteration, the delay included for the first one.
    pub elapsed: int,
    /// Whether ticks are ignored by the clock.
    pub paused: bool,
    /// Whether the current iteration plays backwards.
    pub reversed: bool,
}

impl AnimationView {
    /// Start of iteration `c` on the timeline.
    pub open spec fn base(self, c: int) -> int {
        c * self.duration + if c > 0 { self.initial_delay } else { 0 }
    }

    /// Length of iteration `c`: the first one includes the delay.
    pub open spec fn iter_time(self, c: int) -> int {
        self.duration + if c == 0 { self.initial_delay } else { 0 }
    }

    /// Delay of iteration `c`: the initial delay for the first one.
    pub open spec fn delay_at(self, c: int) -> int {
        if c == 0 { self.initial_delay } else { 0 }
    }

    /// Time elapsed since the animation started, as reported by `total_elapsed`.
    pub open spec fn total_elapsed(self) -> int {
        self.base(self.current) + if self.elapsed < self.iter_time(self.current) {
            self.elapsed
        } else {
            self.iter_time(self.current)
        }
    }

    /// The iteration that timeline position `p` falls in, without limit on its index.
    pub open spec fn index_at(self, p: int) -> int {
        if p < self.initial_delay + self.duration {
            0
        } else {
            (p - self.initial_delay) / self.duration
        }
    }

    /// The play direction after moving from the current iteration to iteration `i`.
    pub open spec fn reversed_after(self, i: int) -> bool {
        if alternates(self.direction) && (i - self.current) % 2 == 1 {
            !self.reversed
        } else {
            self.reversed
        }
    }

    /// The running animation moved to timeline position `p`: either the run is
    /// over and it has just finished, or it runs in the iteration that holds `p`.
    /// The iteration counter of an infinite animation stops at `u32::MAX`.
    pub open spec fn settled(self, p: int) -> AnimationView {
        if self.iterations is Some && p >= self.base(self.iterations->0) {
            let last = self.iterations->0 - 1;
            AnimationView {
                state: AnimationState::JustFinished,
                current: last,
                elapsed: self.iter_time(last),
                reversed: self.reversed_after(last),
                ..self
            }
        } else {
            let i = self.index_at(p);
            AnimationView {
                state: AnimationState::Running,
                current: if i <= u32::MAX { i } else { u32::MAX as int },
                elapsed: p - self.base(i),
                reversed: self.reversed_after(i),
                ..self
            }
        }
    }

    /// Clock reading after a tick of `delta`.
    pub open spec fn clock_after(self, delta: int) -> int {
        if self.paused {
            self.elapsed
        } else {
            saturating_duration_add(self.elapsed, delta)
        }
    }

    /// Whether a tick of `delta` makes the animation run its iterations.
    pub open spec fn tick_runs(self, delta: int) -> bool {
        ||| self.state == AnimationState::Running
        ||| self.state == AnimationState::Pending && self.clock_after(delta) >= self.initial_delay
    }

    /// The animation after a tick of `delta`.
    pub open spec fn ticked(self, delta: int) -> AnimationView {
        let e = self.clock_after(delta);
        match self.state {
            AnimationState::JustFinished => AnimationView {
                elapsed: e,
                state: if e > self.elapsed { AnimationState::Finished } else { AnimationState::JustFinished },
                ..self
            },
            AnimationState::Pending => if e >= self.initial_delay {
                self.settled(e)
            } else {
                AnimationView { elapsed: e, ..self }
            },
            AnimationState::Running => self.settled(self.base(self.current) + e),
            _ => self,
        }
    }

    /// Whether a tick of `delta` terminates: an infinite animation of zero
    /// duration never leaves the iteration loop once it runs.
    pub open spec fn can_tick_by(self, delta: int) -> bool {
        self.tick_runs(delta) && self.iterations is None ==> self.duration > 0
    }

    /// The invariant of an animation, whatever its state.
    pub open spec fn bounds(self) -> bool {
        &&& 0 <= self.initial_delay
        &&& 0 <= self.duration
        &&& self.initial_delay + self.duration <= MAX_DURATION_NANOS
        &&& 0 <= self.elapsed <= MAX_DURATION_NANOS
        &&& 0 <= self.current <= u32::MAX
        &&& match self.iterations {
            Some(m) => 0 <= m <= u32::MAX && (if m == 0 { self.current == 0 } else { self.current < m }),
            None => true,
        }
        &&& self.current < u32::MAX ==> self.reversed == reversed_at(self.direction, self.current)
    }

    /// The invariant of an animation.
    pub open spec fn wf(self) -> bool {
        &&& self.bounds()
        &&& match self.state {
            AnimationState::Pending => {
                &&& self.current == 0
                &&& self.elapsed < self.initial_delay || self.elapsed == 0
                &&& self.iterations != Some(0int)
            },
            AnimationState::Running => {
                &&& self.elapsed < self.iter_time(self.current)
                &&& self.elapsed >= self.delay_at(self.current)
                &&& self.iterations != Some(0int)
            },
            AnimationState::JustFinished => {
                &&& self.iterations is Some
                &&& self.iterations->0 > 0
                &&& self.current == self.iterations->0 - 1
                &&& self.elapsed == self.iter_time(self.current)
            },
            AnimationState::Finished => {
                &&& self.iterations is Some
                &&& if self.iterations->0 == 0 {
                    self.elapsed == 0
                } else {
                    self.current == self.iterations->0 - 1 && self.elapsed > self.iter_time(self.current)
                }
            },
            AnimationState::Canceled => true,
        }
    }

    /// Whether the animation emits a value.
    pub open spec fn active(self) -> bool {
        match self.state {
            AnimationState::Running | AnimationState::JustFinished => true,
            AnimationState::Pending => fills_backwards(self.fill_mode),
            AnimationState::Finished => fills_forwards(self.fill_mode),
            AnimationState::Canceled => false,
        }
    }

    /// The point of the curve the animation emits, if any. A canceled
    /// animation emits nothing; a pending one with a backwards fill emits the
    /// start. Otherwise, with `t` the time elapsed past the iteration's delay
    /// over the duration: `t` itself while running and `0 <= t <= 1`; the
    /// start before it with a backwards fill;
    /// the end after it with a forwards fill. A zero duration makes `t`
    /// infinite, or undefined at zero elapsed time, which emits nothing.
    pub open spec fn sample(self) -> Option<(int, int)> {
        let n = self.elapsed - self.delay_at(self.current);
        let d = self.duration;
        if self.state == AnimationState::Canceled {
            None
        } else if self.state == AnimationState::Pending && fills_backwards(self.fill_mode) {
            Some((0, 1))
        } else if d > 0 && 0 <= n <= d && (self.state == AnimationState::Running || self.state == AnimationState::JustFinished) {
            Some((n, d))
        } else if n < 0 && fills_backwards(self.fill_mode) {
            Some((0, 1))
        } else if (if d > 0 { n >= d } else { n > 0 }) && fills_forwards(self.fill_mode) {
            Some((1, 1))
        } else {
            None
        }
    }
}

/// A new animation with `options`, before any tick.
pub open spec fn fresh_view(options: AnimationOptions) -> AnimationView {
    AnimationView {
        state: if options.iteration_count == IterationCount::Count(0) {
            AnimationState::Finished
        } else {
            AnimationState::Pending
        },
        initial_delay: options.initial_delay as int,
        duration: options.duration as int,
        direction: options.direction,
        fill_mode: options.fill_mode,
        iterations: match options.iteration_count {
            IterationCount::Count(n) => Some(n as int),
            IterationCount::Infinite => None,
        },
        current: 0,
        elapsed: 0,
        paused: false,
        reversed: starts_reversed(options.direction),
    }
}

/// `a` updated to `options`, before its play state is applied: a fresh
/// animation ticked up to `t`, the time `a` had run; an animation that was
/// finished is not brought back to just finished.
pub open spec fn replayed(options: AnimationOptions, t: int, was_finished: bool) -> AnimationView {
    let f = fresh_view(options);
    let g = if t > 0 { f.ticked(t) } else { f };
    if was_finished && g.state == AnimationState::JustFinished {
        g.ticked(NANOS_PER_MILLI as int)
    } else {
        g
    }
}

/// Whether updating an animation that ran for `t` to `options` terminates.
pub open spec fn can_replay(options: AnimationOptions, t: int) -> bool {
    t > 0 ==> fresh_view(options).can_tick_by(t)
}

// ---------------------------------------------------------------------------
// Arithmetic of the timeline.

/// Iteration `c + 1` starts where iteration `c` ends.
pub proof fn lemma_base_step(v: AnimationView, c: int)
    requires
        c >= 0,
    ensures
        v.base(c + 1) == v.base(c) + v.iter_time(c),
{
    assert((c + 1) * v.duration == c * v.duration + v.duration) by (nonlinear_arith);
}

/// Iterations start in order: iteration `b` starts no earlier than iteration `a` ends.
pub proof fn lemma_base_monotone(v: AnimationView, a: int, b: int)
    requires
        0 <= a < b,
        v.duration >= 0,
        v.initial_delay >= 0,
    ensures
        v.base(a) + v.iter_time(a) <= v.base(b),
    decreases b - a,
{
    lemma_base_step(v, a);
    if a + 1 < b {
        lemma_base_monotone(v, a + 1, b);
        assert(v.iter_time(a + 1) >= 0);
    }
}

/// A position inside iteration `c` is indexed by `c`.
pub proof fn lemma_index_at(v: AnimationView, c: int, p: int)
    requires
        c >= 0,
        v.duration >= 0,
        v.initial_delay >= 0,
        v.base(c) <= p < v.base(c) + v.iter_time(c),
    ensures
        v.index_at(p) == c,
{
    if c > 0 {
        let d = v.duration;
        let q = p - v.initial_delay;
        assert(d > 0);
        assert(q == c * d + (q - c * d));
        vstd::arithmetic::div_mod::lemma_fundamental_div_mod_converse(q, d, c, q - c * d);
        assert(c * d >= d) by (nonlinear_arith)
            requires c >= 1, d > 0;
    }
}

/// Reversal after `k` more iterations, in terms of the declared direction.
pub proof fn lemma_reversed_step(direction: AnimationDirection, c: int, i: int)
    requires
        0 <= c <= i,
    ensures
        (if alternates(direction) && (i - c) % 2 == 1 {
            !reversed_at(direction, c)
        } else {
            reversed_at(direction, c)
        }) == reversed_at(direction, i),
{
}


/// Every position of the timeline falls in the iteration `index_at` gives.
pub proof fn lemma_index_at_bounds(v: AnimationView, p: int)
    requires
        p >= 0,
        v.duration >= 0,
        v.initial_delay >= 0,
        v.duration > 0 || p < v.initial_delay + v.duration,
    ensures
        v.index_at(p) >= 0,
        v.base(v.index_at(p)) <= p < v.base(v.index_at(p)) + v.iter_time(v.index_at(p)),
{
    if p >= v.initial_delay + v.duration {
        let d = v.duration;
        let q = p - v.initial_delay;
        let i = q / d;
        vstd::arithmetic::div_mod::lemma_fundamental_div_mod(q, d);
        vstd::arithmetic::div_mod::lemma_mod_pos_bound(q, d);
        assert(q == i * d + q % d) by (nonlinear_arith)
            requires q == d * (q / d) + q % d, i == q / d;
        if i <= 0 {
            assert(i * d <= 0) by (nonlinear_arith)
                requires i <= 0, d > 0;
        }
        assert(i >= 1);
        assert((i + 1) * d == i * d + d) by (nonlinear_arith);
    }
}

/// Moving a well-formed animation forward to a position past the start of its
/// current iteration and past the initial delay keeps it well-formed.
pub proof fn lemma_settled_wf(v: AnimationView, p: int)
    requires
        v.bounds(),
        v.iterations != Some(0int),
        p >= v.base(v.current),
        p >= v.initial_delay,
        v.iterations is None ==> v.duration > 0,
    ensures
        v.settled(p).wf(),
        v.settled(p).state == AnimationState::JustFinished ==> v.settled(p).total_elapsed() == v.base(v.iterations->0),
        v.settled(p).state == AnimationState::Running ==> {
            &&& v.base(v.index_at(p)) + v.settled(p).elapsed == p
            &&& v.index_at(p) >= v.current
            &&& v.index_at(p) <= u32::MAX ==> v.settled(p).total_elapsed() == p
        },
{
    let s = v.settled(p);
    if v.iterations is Some && p >= v.base(v.iterations->0) {
        let m = v.iterations->0;
        lemma_reversed_step(v.direction, v.current, m - 1);
        lemma_base_step(v, m - 1);
    } else {
        if v.duration == 0 {
            let m = v.iterations->0;
            assert(v.base(m) == v.initial_delay) by (nonlinear_arith)
                requires v.base(m) == m * v.duration + if m > 0 { v.initial_delay } else { 0 }, v.duration == 0, m >= 1;
        }
        lemma_index_at_bounds(v, p);
        let i = v.index_at(p);
        if i < v.current {
            lemma_base_monotone(v, i, v.current);
        }
        assert(i >= v.current);
        if v.iterations is Some {
            let m = v.iterations->0;
            if i >= m {
                if i > m {
                    lemma_base_monotone(v, m, i);
                }
                assert(v.base(i) >= v.base(m));
            }
        }
        if i < u32::MAX {
            lemma_reversed_step(v.direction, v.current, i);
        }
        assert(s.current == 0 <==> i == 0);
        assert(0 * v.duration == 0) by (nonlinear_arith);
        assert(s.iter_time(s.current) == v.iter_time(i));
        assert(s.elapsed < s.iter_time(s.current));
        assert(s.elapsed >= s.delay_at(s.current));
        assert(s.bounds());
        assert(s.wf());
    }
}


/// A single keyframes animation.
#[derive(Debug, Clone)]
pub struct Animation {
    /// Name of the animation.
    pub name: String,
    /// Delay before the first iteration.
    pub initial_delay: u128,
    /// Duration of each iteration.
    pub duration: u128,
    /// Time in the current iteration; also whether the animation is paused.
    pub stopwatch: Stopwatch,
    /// The current iteration, and the number of iterations.
    pub iteration_state: KeyframesIterationState,
    /// The direction the current iteration plays in.
    pub current_direction: CurrentAnimationDirection,
    /// State of the animation.
    pub state: AnimationState,
    /// Declared direction.
    pub direction: AnimationDirection,
    /// Whether values are emitted before the start and after the end.
    pub fill_mode: AnimationFillMode,
}

impl Animation {
    /// Number of iterations; `None` when infinite.
    pub open spec fn iterations_spec(&self) -> Option<int> {
        match self.iteration_state {
            KeyframesIterationState::Finite { max, .. } => Some(max as int),
            KeyframesIterationState::Infinite { .. } => None,
        }
    }

    /// Index of the current iteration.
    pub open spec fn current_spec(&self) -> int {
        match self.iteration_state {
            KeyframesIterationState::Finite { current, .. } => current as int,
            KeyframesIterationState::Infinite { current } => current as int,
        }
    }

    /// The clock of the current iteration.
    pub open spec fn clock(&self) -> Stopwatch {
        self.stopwatch
    }

    /// Whether the current iteration plays backwards.
    pub open spec fn reversed_spec(&self) -> bool {
        self.current_direction == CurrentAnimationDirection::Reverse
    }
}

impl View for Animation {
    type V = AnimationView;

    open spec fn view(&self) -> AnimationView {
        AnimationView {
            state: self.state,
            initial_delay: self.initial_delay as int,
            duration: self.duration as int,
            direction: self.direction,
            fill_mode: self.fill_mode,
            iterations: self.iterations_spec(),
            current: self.current_spec(),
            elapsed: self.clock().elapsed as int,
            paused: self.clock().paused,
            reversed: self.reversed_spec(),
        }
    }
}

impl Animation {
    /// Creates an animation with `options`; it starts pending, or finished when
    /// it has no iteration.
    pub fn new(name: String, options: &AnimationOptions) -> (r: Animation)
        requires
            options.valid(),
        ensures
            r@ == (AnimationView {
                paused: options.play_state == AnimationPlayState::Paused,
                ..fresh_view(*options)
            }),
            r@.wf(),
            r.name == name,
    {
        let mut this = Animation {
            name,
            initial_delay: 0,
            duration: 0,
            stopwatch: Stopwatch::new(),
            iteration_state: KeyframesIterationState::Infinite { current: u32::MAX },
            current_direction: CurrentAnimationDirection::Normal,
            state: AnimationState::Canceled,
            direction: AnimationDirection::Normal,
            fill_mode: AnimationFillMode::NoFill,
        };
        assert(u32::MAX * 0int == 0) by (nonlinear_arith);
        this.update_options(options);
        this
    }

    /// Updates the options. The animation does not restart: its state is
    /// recomputed as if the new options had been given from the start and it
    /// had run for the same total time. A finished animation stays finished.
    pub fn update_options(&mut self, options: &AnimationOptions)
        requires
            old(self)@.wf(),
            old(self)@.total_elapsed() <= MAX_DURATION_NANOS,
            options.valid(),
            can_replay(*options, old(self)@.total_elapsed()),
        ensures
            final(self)@ == (AnimationView {
                paused: options.play_state == AnimationPlayState::Paused,
                ..replayed(*options, old(self)@.total_elapsed(), old(self)@.state == AnimationState::Finished)
            }),
            final(self)@.wf(),
            final(self)@.total_elapsed() <= old(self)@.total_elapsed(),
            final(self).name == old(self).name,
    {
        proof {
            lemma_replay_total_bound(*options, old(self)@.total_elapsed(), old(self)@.state == AnimationState::Finished);
        }
        let total_elapsed = self.total_elapsed();
        let previous_state = self.state;

        let iteration_state = match options.iteration_count {
            IterationCount::Count(count) => KeyframesIterationState::Finite { current: 0, max: count },
            IterationCount::Infinite => KeyframesIterationState::Infinite { current: 0 },
        };
        let current_direction = match options.direction {
            AnimationDirection::Normal | AnimationDirection::Alternate => CurrentAnimationDirection::Normal,
            AnimationDirection::Reverse | AnimationDirection::AlternateReverse => CurrentAnimationDirection::Reverse,
        };
        self.initial_delay = options.initial_delay;
        self.duration = options.duration;
        self.stopwatch = Stopwatch::new();
        self.iteration_state = iteration_state;
        self.direction = options.direction;
        self.current_direction = current_direction;
        self.fill_mode = options.fill_mode;
        self.state = AnimationState::Pending;

        if self.max_iterations() == 0 {
            self.state = AnimationState::Finished;
        }
        assert(self@ == fresh_view(*options));

        if total_elapsed > 0 {
            self.tick(total_elapsed);
        }
        if previous_state == AnimationState::Finished && self.state == AnimationState::JustFinished {
            self.tick(NANOS_PER_MILLI);
        }
        self.set_play_state(options.play_state);
    }

    /// Number of iterations, `u32::MAX` standing for infinitely many.
    fn max_iterations(&self) -> (r: u32)
        ensures
            r == match self@.iterations {
                Some(m) => m,
                None => u32::MAX as int,
            },
    {
        match self.iteration_state {
            KeyframesIterationState::Finite { max, .. } => max,
            KeyframesIterationState::Infinite { .. } => u32::MAX,
        }
    }

    /// Whether the current iteration is the last one.
    fn is_on_last_iteration(&self) -> (r: bool)
        requires
            self@.iterations != Some(0int),
        ensures
            r == (self@.iterations is Some && self@.current >= self@.iterations->0 - 1),
    {
        match self.iteration_state {
            KeyframesIterationState::Finite { current, max } => current >= max - 1,
            KeyframesIterationState::Infinite { .. } => false,
        }
    }

    /// Index of the current iteration, the first being 0.
    pub fn get_current_iteration(&self) -> (r: u32)
        ensures
            r == self@.current,
    {
        match self.iteration_state {
            KeyframesIterationState::Finite { current, .. } => current,
            KeyframesIterationState::Infinite { current } => current,
        }
    }

    /// Delay of the current iteration.
    fn current_iteration_delay(&self) -> (r: u128)
        ensures
            r == self@.delay_at(self@.current),
    {
        if self.get_current_iteration() == 0 {
            self.initial_delay
        } else {
            0
        }
    }

    /// Length of the current iteration, its delay included.
    fn current_iteration_duration(&self) -> (r: u128)
        requires
            self@.bounds(),
        ensures
            r == self@.iter_time(self@.current),
    {
        self.duration + self.current_iteration_delay()
    }

    /// Time elapsed since the animation started, delays included.
    pub fn total_elapsed(&self) -> (r: u128)
        requires
            self@.bounds(),
            self@.total_elapsed() <= MAX_DURATION_NANOS,
        ensures
            r == self@.total_elapsed(),
    {
        let current_iteration = self.get_current_iteration();
        assert(current_iteration * self.duration <= self@.base(self@.current));
        let mut total_duration: u128 = (current_iteration as u128) * self.duration;
        if current_iteration > 0 {
            total_duration = total_duration + self.initial_delay;
        }
        let elapsed = self.stopwatch.elapsed();
        let iteration_duration = self.current_iteration_duration();
        if elapsed < iteration_duration {
            total_duration + elapsed
        } else {
            total_duration + iteration_duration
        }
    }

    /// Whether the animation emits a value.
    pub fn is_active(&self) -> (r: bool)
        ensures
            r == self@.active(),
    {
        match self.state {
            AnimationState::Running | AnimationState::JustFinished => true,
            AnimationState::Pending => self.fill_mode.is_backwards(),
            AnimationState::Finished => self.fill_mode.is_forwards(),
            AnimationState::Canceled => false,
        }
    }

    /// Whether the animation is playing or paused.
    pub fn get_play_state(&self) -> (r: AnimationPlayState)
        ensures
            r == if self@.paused { AnimationPlayState::Paused } else { AnimationPlayState::Running },
    {
        if self.stopwatch.is_paused() {
            AnimationPlayState::Paused
        } else {
            AnimationPlayState::Running
        }
    }

    /// Pauses or resumes the clock.
    fn set_play_state(&mut self, play_state: AnimationPlayState)
        ensures
            final(self)@ == (AnimationView { paused: play_state == AnimationPlayState::Paused, ..old(self)@ }),
            final(self).name == old(self).name,
    {
        match play_state {
            AnimationPlayState::Paused => self.stopwatch.pause(),
            AnimationPlayState::Running => self.stopwatch.unpause(),
        }
    }

    /// Cancels the animation: it no longer emits values and ignores ticks.
    pub fn cancel(&mut self)
        ensures
            final(self)@ == (AnimationView { state: AnimationState::Canceled, ..old(self)@ }),
            final(self).name == old(self).name,
    {
        self.state = AnimationState::Canceled;
    }

    /// Whether ticks can still change the animation.
    pub fn can_be_ticked(&self) -> (r: bool)
        ensures
            r == (self.state == AnimationState::Pending || self.state == AnimationState::Running
                || self.state == AnimationState::JustFinished),
    {
        match self.state {
            AnimationState::Pending | AnimationState::Running | AnimationState::JustFinished => true,
            _ => false,
        }
    }

    /// Advances the animation by `delta` nanoseconds.
    pub fn tick(&mut self, delta: u128)
        requires
            old(self)@.wf(),
            delta <= MAX_DURATION_NANOS,
            old(self)@.can_tick_by(delta as int),
        ensures
            final(self)@ == old(self)@.ticked(delta as int),
            final(self)@.wf(),
            final(self).name == old(self).name,
    {
        if !self.can_be_ticked() {
            return;
        }
        if self.state == AnimationState::JustFinished {
            let previous_elapsed = self.stopwatch.elapsed();
            self.stopwatch.tick(delta);
            if self.stopwatch.elapsed() > previous_elapsed {
                self.state = AnimationState::Finished;
            }
            return;
        }
        let ghost v = self@;
        self.stopwatch.tick(delta);
        if self.state == AnimationState::Pending && self.stopwatch.elapsed() >= self.current_iteration_delay() {
            self.state = AnimationState::Running;
        }
        if self.state == AnimationState::Running {
            proof {
                let w = self@;
                assert(w.base(w.current) + w.elapsed >= w.initial_delay) by {
                    if w.current > 0 {
                        assert(w.current * w.duration >= 0) by (nonlinear_arith)
                            requires w.current > 0, w.duration >= 0;
                    }
                }
                assert(0 * w.duration == 0) by (nonlinear_arith);
                lemma_settled_wf(w, w.base(w.current) + w.elapsed);
            }
        }
        self.iterate_if_necessary();
    }

    /// Moves a running animation to the iteration its clock has reached,
    /// or to just finished when the run is over.
    fn iterate_if_necessary(&mut self)
        requires
            old(self)@.bounds(),
            old(self)@.state == AnimationState::Running ==> {
                &&& old(self)@.iterations != Some(0int)
                &&& old(self)@.iterations is None ==> old(self)@.duration > 0
            },
        ensures
            old(self)@.state == AnimationState::Running ==>
                final(self)@ == old(self)@.settled(old(self)@.base(old(self)@.current) + old(self)@.elapsed),
            old(self)@.state != AnimationState::Running ==> final(self)@ == old(self)@,
            final(self).name == old(self).name,
    {
        if self.state != AnimationState::Running {
            return;
        }
        let ghost v = self@;
        let ghost p = v.base(v.current) + v.elapsed;
        let ghost mut i: int = v.current;
        assert(v.reversed_after(v.current) == v.reversed);
        while self.stopwatch.elapsed() >= self.current_iteration_duration()
            invariant
                v == old(self)@,
                v.bounds(),
                v.state == AnimationState::Running,
                v.iterations != Some(0int),
                v.iterations is None ==> v.duration > 0,
                p == v.base(v.current) + v.elapsed,
                v.current <= i,
                v.iterations is Some ==> i <= v.iterations->0 - 1,
                self@ == (AnimationView {
                    current: if i <= u32::MAX { i } else { u32::MAX as int },
                    elapsed: p - v.base(i),
                    reversed: v.reversed_after(i),
                    ..v
                }),
                self@.bounds(),
                self.name == old(self).name,
            decreases
                if v.iterations is Some { v.iterations->0 - i } else { self@.elapsed },
        {
            if self.is_on_last_iteration() {
                proof {
                    lemma_base_step(v, i);
                }
                self.state = AnimationState::JustFinished;
                let iteration_duration = self.current_iteration_duration();
                self.stopwatch.set_elapsed(iteration_duration);
                return;
            }
            let iteration_duration = self.current_iteration_duration();
            let elapsed = self.stopwatch.elapsed();
            self.stopwatch.set_elapsed(elapsed - iteration_duration);
            self.iterate();
            proof {
                lemma_base_step(v, i);
                i = i + 1;
            }
        }
        proof {
            lemma_index_at(v, i, p);
            if v.iterations is Some {
                let m = v.iterations->0;
                if i + 1 < m {
                    lemma_base_monotone(v, i, m);
                } else {
                    lemma_base_step(v, i);
                }
            }
        }
    }

    /// Moves to the next iteration, flipping the direction of alternating animations.
    fn iterate(&mut self)
        requires
            !(old(self)@.iterations is Some && old(self)@.current >= old(self)@.iterations->0 - 1),
        ensures
            final(self)@ == (AnimationView {
                current: if old(self)@.current < u32::MAX { old(self)@.current + 1 } else { u32::MAX as int },
                reversed: if alternates(old(self)@.direction) { !old(self)@.reversed } else { old(self)@.reversed },
                ..old(self)@
            }),
            final(self).name == old(self).name,
    {
        match self.iteration_state {
            KeyframesIterationState::Infinite { current } => {
                self.iteration_state = KeyframesIterationState::Infinite { current: current.saturating_add(1) };
            },
            KeyframesIterationState::Finite { current, max } => {
                let next = current.saturating_add(1);
                self.iteration_state = KeyframesIterationState::Finite {
                    current: if next < max { next } else { max },
                    max,
                };
            },
        }
        match self.direction {
            AnimationDirection::Alternate | AnimationDirection::AlternateReverse => {
                self.current_direction = match self.current_direction {
                    CurrentAnimationDirection::Normal => CurrentAnimationDirection::Reverse,
                    CurrentAnimationDirection::Reverse => CurrentAnimationDirection::Normal,
                };
            },
            _ => {},
        }
    }

    /// Whether the animation's fields are within the bounds that sampling
    /// needs; every animation made and advanced by this crate is.
    pub fn in_bounds(&self) -> (r: bool)
        ensures
            r == self@.bounds(),
    {
        if self.initial_delay > MAX_DURATION_NANOS || self.duration > MAX_DURATION_NANOS - self.initial_delay {
            return false;
        }
        if self.stopwatch.elapsed > MAX_DURATION_NANOS {
            return false;
        }
        let current = match self.iteration_state {
            KeyframesIterationState::Finite { current, max } => {
                if max == 0 {
                    if current != 0 {
                        return false;
                    }
                } else if current >= max {
                    return false;
                }
                current
            },
            KeyframesIterationState::Infinite { current } => current,
        };
        if current < u32::MAX {
            let alternating = self.direction == AnimationDirection::Alternate
                || self.direction == AnimationDirection::AlternateReverse;
            let starts_back = self.direction == AnimationDirection::Reverse
                || self.direction == AnimationDirection::AlternateReverse;
            let expected = if alternating && current % 2 == 1 { !starts_back } else { starts_back };
            let reversed = self.current_direction == CurrentAnimationDirection::Reverse;
            if reversed != expected {
                return false;
            }
        }
        true
    }

    /// Where to sample the keyframes curve, or `None` when the animation emits nothing.
    pub fn sample_point(&self) -> (r: Option<SamplePoint>)
        requires
            self@.bounds(),
        ensures
            match r {
                Some(s) => self@.sample() == Some((s.numerator as int, s.denominator as int))
                    && s.reversed == self@.reversed,
                None => self@.sample() is None,
            },
    {
        let delay = self.current_iteration_delay();
        let elapsed = self.stopwatch.elapsed();
        let duration = self.duration;
        let reversed = self.current_direction == CurrentAnimationDirection::Reverse;
        let running = self.state == AnimationState::Running || self.state == AnimationState::JustFinished;
        if self.state == AnimationState::Canceled {
            None
        } else if self.state == AnimationState::Pending && self.fill_mode.is_backwards() {
            Some(SamplePoint { numerator: 0, denominator: 1, reversed })
        } else if duration > 0 && elapsed >= delay && elapsed - delay <= duration && running {
            Some(SamplePoint { numerator: elapsed - delay, denominator: duration, reversed })
        } else if elapsed < delay && self.fill_mode.is_backwards() {
            Some(SamplePoint { numerator: 0, denominator: 1, reversed })
        } else if elapsed >= delay && (if duration > 0 { elapsed - delay >= duration } else { elapsed > delay })
            && self.fill_mode.is_forwards() {
            Some(SamplePoint { numerator: 1, denominator: 1, reversed })
        } else {
            None
        }
    }
}


// ---------------------------------------------------------------------------
// Laws of the animation timeline.

/// A tick moves a pending or running animation that is not paused forward by
/// exactly `delta` on its timeline, up to the end of its run. (The clock does
/// not saturate and the iteration counter does not reach its limit.)
pub proof fn lemma_tick_advances_total(a: AnimationView, delta: int)
    requires
        a.wf(),
        a.state == AnimationState::Pending || a.state == AnimationState::Running,
        !a.paused,
        delta >= 0,
        a.elapsed + delta <= MAX_DURATION_NANOS,
        a.can_tick_by(delta),
        a.iterations is None && a.tick_runs(delta) ==> a.index_at(a.total_elapsed() + delta) <= u32::MAX,
    ensures
        a.ticked(delta).total_elapsed() == if a.iterations is Some
            && a.total_elapsed() + delta >= a.base(a.iterations->0) {
            a.base(a.iterations->0)
        } else {
            a.total_elapsed() + delta
        },
{
    let e = a.clock_after(delta);
    assert(e == a.elapsed + delta);
    assert(0 * a.duration == 0) by (nonlinear_arith);
    if a.iterations is Some {
        lemma_base_monotone(a, 0, a.iterations->0);
    }
    if a.state == AnimationState::Pending {
        assert(a.total_elapsed() == a.elapsed);
        if e >= a.initial_delay {
            lemma_settled_wf(a, e);
        }
    } else {
        assert(a.total_elapsed() == a.base(a.current) + a.elapsed);
        if a.current > 0 {
            assert(a.current * a.duration >= 0) by (nonlinear_arith)
                requires a.current > 0, a.duration >= 0;
        }
        lemma_settled_wf(a, a.base(a.current) + e);
    }
}

/// Updating an animation with the options it already has (whatever the play
/// state) keeps its state, iteration, direction, total elapsed time and the
/// point it samples; only a finished animation may see its clock moved past
/// the end. Excluded: canceled animations, and animations that are running or
/// over without any time elapsed, which restart pending.
pub proof fn lemma_update_with_same_options(a: AnimationView, options: AnimationOptions)
    requires
        a.wf(),
        a.state != AnimationState::Canceled,
        options.initial_delay == a.initial_delay,
        options.duration == a.duration,
        options.direction == a.direction,
        options.fill_mode == a.fill_mode,
        options.iteration_count == match a.iterations {
            Some(m) => IterationCount::Count(m as u32),
            None => IterationCount::Infinite,
        },
        a.current < u32::MAX,
        a.state == AnimationState::Running || a.state == AnimationState::JustFinished
            || (a.state == AnimationState::Finished && a.iterations != Some(0int)) ==> a.total_elapsed() > 0,
        a.total_elapsed() + NANOS_PER_MILLI <= MAX_DURATION_NANOS,
    ensures
        can_replay(options, a.total_elapsed()),
        ({
            let r = replayed(options, a.total_elapsed(), a.state == AnimationState::Finished);
            &&& r.state == a.state
            &&& r.current == a.current
            &&& r.reversed == a.reversed
            &&& r.total_elapsed() == a.total_elapsed()
            &&& r.sample() == a.sample()
            &&& a.state != AnimationState::Finished ==> r.elapsed == a.elapsed
        }),
{
    let t = a.total_elapsed();
    let f = fresh_view(options);
    assert(f.base(a.current) == a.base(a.current));
    assert(0 * a.duration == 0) by (nonlinear_arith);
    lemma_reversed_step(a.direction, 0, a.current);
    match a.state {
        AnimationState::Pending => {
            assert(t == a.elapsed);
        },
        AnimationState::Running => {
            if a.current > 0 {
                assert(a.current * a.duration >= 0) by (nonlinear_arith)
                    requires a.current > 0, a.duration >= 0;
            }
            assert(t == a.base(a.current) + a.elapsed);
            lemma_index_at(f, a.current, t);
            if a.iterations is Some {
                let m = a.iterations->0;
                if a.current + 1 < m {
                    lemma_base_monotone(f, a.current, m);
                } else {
                    lemma_base_step(f, a.current);
                }
            }
            lemma_settled_wf(f, t);
        },
        AnimationState::JustFinished => {
            let m = a.iterations->0;
            lemma_base_step(a, m - 1);
            lemma_base_monotone(f, 0, m);
        },
        AnimationState::Finished => {
            let m = a.iterations->0;
            if m > 0 {
                lemma_base_step(a, m - 1);
                lemma_base_monotone(f, 0, m);
            }
        },
        AnimationState::Canceled => {},
    }
}

/// Pausing an animation by updating it to its own options, paused, keeps
/// where it stands: its total elapsed time, the point it samples, its
/// iteration and its state. Excluded as in [`lemma_update_with_same_options`].
pub proof fn lemma_pause_keeps_position(a: AnimationView, options: AnimationOptions)
    requires
        a.wf(),
        a.state != AnimationState::Canceled,
        options.initial_delay == a.initial_delay,
        options.duration == a.duration,
        options.direction == a.direction,
        options.fill_mode == a.fill_mode,
        options.iteration_count == match a.iterations {
            Some(m) => IterationCount::Count(m as u32),
            None => IterationCount::Infinite,
        },
        options.play_state == AnimationPlayState::Paused,
        a.current < u32::MAX,
        a.state == AnimationState::Running || a.state == AnimationState::JustFinished
            || (a.state == AnimationState::Finished && a.iterations != Some(0int)) ==> a.total_elapsed() > 0,
        a.total_elapsed() + NANOS_PER_MILLI <= MAX_DURATION_NANOS,
    ensures
        ({
            let u = AnimationView {
                paused: options.play_state == AnimationPlayState::Paused,
                ..replayed(options, a.total_elapsed(), a.state == AnimationState::Finished)
            };
            &&& u.paused
            &&& u.total_elapsed() == a.total_elapsed()
            &&& u.sample() == a.sample()
            &&& u.current == a.current
            &&& u.state == a.state
        }),
{
    lemma_update_with_same_options(a, options);
}

/// A paused animation ignores ticks, unless it is pending with its delay
/// already over (a zero delay), which starts it.
pub proof fn lemma_paused_tick_keeps(a: AnimationView, delta: int)
    requires
        a.wf(),
        a.paused,
        !(a.state == AnimationState::Pending && a.elapsed >= a.initial_delay),
    ensures
        a.ticked(delta) == a,
{
    if a.state == AnimationState::Running {
        let p = a.base(a.current) + a.elapsed;
        assert(0 * a.duration == 0) by (nonlinear_arith);
        lemma_index_at(a, a.current, p);
        if a.iterations is Some {
            let m = a.iterations->0;
            if a.current + 1 < m {
                lemma_base_monotone(a, a.current, m);
            } else {
                lemma_base_step(a, a.current);
            }
        }
    }
}

/// A canceled animation ignores ticks.
pub proof fn lemma_canceled_ignores_ticks(a: AnimationView, delta: int)
    requires
        a.state == AnimationState::Canceled,
    ensures
        a.ticked(delta) == a,
{
}

/// The total elapsed time of an animation that is not canceled never exceeds
/// the length of its run: the delay plus all its iterations.
pub proof fn lemma_total_within_run(a: AnimationView)
    requires
        a.wf(),
        a.state != AnimationState::Canceled,
        a.iterations is Some,
    ensures
        a.total_elapsed() <= a.base(a.iterations->0),
{
    let m = a.iterations->0;
    assert(0 * a.duration == 0) by (nonlinear_arith);
    if m > 0 {
        if a.current + 1 < m {
            lemma_base_monotone(a, a.current, m);
        } else {
            lemma_base_step(a, a.current);
        }
    }
}


/// Updating the options of an animation never reports more elapsed time than
/// it had run: the run may be shorter under the new options.
pub proof fn lemma_replay_total_bound(options: AnimationOptions, t: int, was_finished: bool)
    requires
        options.valid(),
        0 <= t <= MAX_DURATION_NANOS,
        can_replay(options, t),
    ensures
        replayed(options, t, was_finished).total_elapsed() <= t,
{
    let f = fresh_view(options);
    assert(0 * f.duration == 0) by (nonlinear_arith);
    if t > 0 && f.iterations != Some(0int) {
        assert(f.clock_after(t) == t);
        if t >= f.initial_delay {
            lemma_settled_wf(f, t);
            let s = f.settled(t);
            if s.state == AnimationState::Running {
                let i = f.index_at(t);
                if i > u32::MAX {
                    lemma_index_at_bounds(f, t);
                    lemma_base_monotone(f, u32::MAX as int, i);
                    assert(s.current == u32::MAX);
                    assert(s.iter_time(s.current) == f.duration);
                }
            } else {
                let m = f.iterations->0;
                lemma_base_step(f, m - 1);
            }
        }
    }
}

/// Directions and fill modes: `normal` plays every iteration forwards,
/// `reverse` every one backwards, `alternate` the odd ones backwards,
/// `alternate-reverse` the even ones; `forwards` and `both` keep the end
/// value after the run, `backwards` and `both` show the start value before
/// it, `none` neither.
pub proof fn lemma_direction_and_fill_facts(c: int)
    requires
        c >= 0,
    ensures
        !reversed_at(AnimationDirection::Normal, c),
        reversed_at(AnimationDirection::Reverse, c),
        reversed_at(AnimationDirection::Alternate, c) == (c % 2 == 1),
        reversed_at(AnimationDirection::AlternateReverse, c) == (c % 2 == 0),
        fills_forwards(AnimationFillMode::Forwards) && fills_forwards(AnimationFillMode::Both),
        !fills_forwards(AnimationFillMode::Backwards) && !fills_forwards(AnimationFillMode::NoFill),
        fills_backwards(AnimationFillMode::Backwards) && fills_backwards(AnimationFillMode::Both),
        !fills_backwards(AnimationFillMode::Forwards) && !fills_backwards(AnimationFillMode::NoFill),
        starts_reversed(AnimationDirection::Reverse) && starts_reversed(AnimationDirection::AlternateReverse),
        !starts_reversed(AnimationDirection::Normal) && !starts_reversed(AnimationDirection::Alternate),
{
}

/// What an animation of non-zero duration emits: exactly while it is
/// active; while running, the time past the iteration's delay over the
/// duration, below one; once just finished, the end of the iteration;
/// finished with a forwards fill, the end; pending with a backwards fill,
/// the start; finished without a forwards fill or pending without a
/// backwards fill, nothing. An animation with no iteration at all is left
/// out: it is finished from the start, and emits its start during a delay
/// when it fills backwards.
pub proof fn lemma_sample_law(a: AnimationView)
    requires
        a.wf(),
        a.duration > 0,
        a.iterations != Some(0int),
    ensures
        (a.sample() is Some) == a.active(),
        a.state == AnimationState::Running ==> a.sample() == Some((a.elapsed - a.delay_at(a.current), a.duration))
            && 0 <= a.elapsed - a.delay_at(a.current) < a.duration,
        a.state == AnimationState::JustFinished ==> a.sample() == Some((a.duration, a.duration)),
        a.state == AnimationState::Finished && fills_forwards(a.fill_mode)
            ==> a.sample() == Some((1int, 1int)),
        a.state == AnimationState::Finished && !fills_forwards(a.fill_mode) ==> a.sample() is None,
        a.state == AnimationState::Pending ==> a.sample() == if fills_backwards(a.fill_mode) {
            Some((0int, 1int))
        } else {
            None
        },
        a.state == AnimationState::Canceled ==> a.sample() is None,
{
}

/// A tick of a pending animation: before its delay is over it stays
/// pending, its clock moved; once the delay and every iteration are over it
/// has just finished in its last iteration; in between it runs.
pub proof fn lemma_pending_tick(a: AnimationView, delta: int)
    requires
        a.wf(),
        a.state == AnimationState::Pending,
        delta >= 0,
    ensures
        ({
            let e = a.clock_after(delta);
            let b = a.ticked(delta);
            &&& e < a.initial_delay ==> b.state == AnimationState::Pending && b.elapsed == e
            &&& (a.iterations matches Some(m) && e >= a.initial_delay + m * a.duration)
                ==> b.state == AnimationState::JustFinished && b.current == a.iterations->0 - 1
            &&& (e >= a.initial_delay && (a.iterations matches Some(m) ==> e < a.initial_delay + m * a.duration))
                ==> b.state == AnimationState::Running
        }),
{
}

} // verus!

