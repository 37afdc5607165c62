//! Countdown timers and stopwatches over simulated time, in nanoseconds: plain
//! values that the engine's timer and stopwatch tick.

use vstd::prelude::*;

verus! {

/// Nanoseconds per millisecond.
pub const NANOS_PER_MILLI: u64 = 1_000_000;

/// Nanoseconds per second.
pub const NANOS_PER_SEC: u64 = 1_000_000_000;

/// What a timer does when it reaches its duration.
#[derive(Clone, Copy, PartialEq, Eq, Structural, Debug)]
pub enum TimerMode {
    /// The timer stops at its duration and stays finished until it is reset.
    Once,
    /// The timer starts over, carrying the surplus into the next round.
    Repeating,
}

/// A timer that counts up to a duration.
#[derive(Clone, Copy, PartialEq, Eq, Structural, Debug)]
pub struct Timer {
    pub elapsed: u64,
    pub duration: u64,
    pub mode: TimerMode,
    pub finished: bool,
    pub times_finished_this_tick: u32,
}

impl Timer {
    /// A timer of the given duration that has not run yet.
    pub open spec fn fresh(duration: u64, mode: TimerMode) -> Timer {
        Timer { elapsed: 0, duration, mode, finished: false, times_finished_this_tick: 0 }
    }

    /// The timer after `delta` nanoseconds have passed.
    ///
    /// A finished one-shot timer only forgets that it has just finished. Any
    /// other timer adds `delta` to the time elapsed: short of the duration it
    /// is not finished; at or beyond it a one-shot timer stops at the duration,
    /// and a repeating timer keeps the remainder and counts the rounds it
    /// completed in the low 32 bits of their number (a repeating timer
    /// without a duration counts `u32::MAX` on every tick).
    pub open spec fn ticked(self, delta: u64) -> Timer {
        let total: int = self.elapsed + delta;
        if self.mode == TimerMode::Once && self.finished {
            Timer { times_finished_this_tick: 0, ..self }
        } else if total < self.duration {
            Timer { elapsed: total as u64, finished: false, times_finished_this_tick: 0, ..self }
        } else if self.mode == TimerMode::Once {
            Timer { elapsed: self.duration, finished: true, times_finished_this_tick: 1, ..self }
        } else if self.duration == 0 {
            Timer { elapsed: 0, finished: true, times_finished_this_tick: u32::MAX, ..self }
        } else {
            let rounds: int = total / (self.duration as int);
            Timer {
                elapsed: (total % (self.duration as int)) as u64,
                finished: true,
                times_finished_this_tick: (rounds % 0x1_0000_0000) as u32,
                ..self
            }
        }
    }

    /// The timer set back to its start.
    pub open spec fn rewound(self) -> Timer {
        Timer { elapsed: 0, finished: false, times_finished_this_tick: 0, ..self }
    }

    /// Whether the timer completed a round during the last tick.
    pub open spec fn just_finished_spec(self) -> bool {
        self.times_finished_this_tick > 0
    }

    /// Creates a timer of the given duration that has not run yet.
    pub fn new(duration: u64, mode: TimerMode) -> (t: Timer)
        ensures
            t == Timer::fresh(duration, mode),
    {
        Timer { elapsed: 0, duration, mode, finished: false, times_finished_this_tick: 0 }
    }

    /// Advances the timer by `delta` nanoseconds. A one-shot timer that has
    /// finished only forgets that it has just finished; any other timer is
    /// ticked by the engine.
    pub fn tick(&mut self, delta: u64)
        ensures
            *final(self) == old(self).ticked(delta),
    {
        if self.mode == TimerMode::Once && self.finished {
            self.times_finished_this_tick = 0;
        } else {
            *self = engine_timer_tick(*self, delta);
        }
    }

    /// Whether the timer has reached its duration.
    pub fn finished(&self) -> (b: bool)
        ensures
            b == self.finished,
    {
        self.finished
    }

    /// Whether the timer completed a round during the last tick.
    pub fn just_finished(&self) -> (b: bool)
        ensures
            b == self.just_finished_spec(),
    {
        self.times_finished_this_tick > 0
    }

    /// The time elapsed in the current round.
    pub fn elapsed(&self) -> (e: u64)
        ensures
            e == self.elapsed,
    {
        self.elapsed
    }

    /// The duration of one round.
    pub fn duration(&self) -> (d: u64)
        ensures
            d == self.duration,
    {
        self.duration
    }

    /// Sets the time elapsed and nothing else: whether the timer is finished
    /// is decided by the next tick.
    pub fn set_elapsed(&mut self, elapsed: u64)
        ensures
            *final(self) == (Timer { elapsed, ..*old(self) }),
    {
        self.elapsed = elapsed;
    }

    /// Sets the timer back to its start.
    pub fn reset(&mut self)
        ensures
            *final(self) == old(self).rewound(),
    {
        self.elapsed = 0;
        self.finished = false;
        self.times_finished_this_tick = 0;
    }
}

/// Ticks a timer with `bevy::time::Timer::tick`: an engine timer of the same
/// duration and mode is set to the same reading, ticked by `delta`, and read
/// back.
///
/// Not proved: that the engine's tick is what [`Timer::ticked`] says. The
/// engine adds `delta` to the reading; short of the duration the timer is not
/// finished and has completed no round; at or beyond it a one-shot timer is
/// set to its duration with one round completed, and a repeating timer keeps
/// the remainder of the division by its duration and reports the quotient
/// cut to 32 bits, or `u32::MAX` and a reading of zero where the duration is
/// zero. An engine timer cannot be made finished from outside, so the one
/// that is ticked here starts unfinished: the precondition leaves out the
/// finished one-shot timer, the only one whose tick depends on that.
#[verifier::external_body]
fn engine_timer_tick(timer: Timer, delta: u64) -> (after: Timer)
    requires
        !(timer.mode == TimerMode::Once && timer.finished),
    ensures
        after == timer.ticked(delta),
{
    let mode = match timer.mode {
        TimerMode::Once => bevy::time::TimerMode::Once,
        TimerMode::Repeating => bevy::time::TimerMode::Repeating,
    };
    let mut engine = bevy::time::Timer::new(core::time::Duration::from_nanos(timer.duration), mode);
    engine.set_elapsed(core::time::Duration::from_nanos(timer.elapsed));
    engine.tick(core::time::Duration::from_nanos(delta));
    Timer {
        elapsed: engine.elapsed().as_nanos() as u64,
        finished: engine.finished(),
        times_finished_this_tick: engine.times_finished_this_tick(),
        ..timer
    }
}

/// Ticks a stopwatch with `bevy::time::Stopwatch::tick`: an engine stopwatch
/// is set to the reading `elapsed`, ticked by `delta`, and read back.
///
/// Not proved: that the engine adds `delta` to the reading. The precondition
/// keeps the sum within the 64 bits in which it is read back.
#[verifier::external_body]
fn engine_stopwatch_tick(elapsed: u64, delta: u64) -> (after: u64)
    requires
        elapsed + delta <= u64::MAX,
    ensures
        after == elapsed + delta,
{
    let mut engine = bevy::time::Stopwatch::new();
    engine.set_elapsed(core::time::Duration::from_nanos(elapsed));
    engine.tick(core::time::Duration::from_nanos(delta));
    engine.elapsed().as_nanos() as u64
}

/// A one-shot timer that has finished stays finished, at the same reading,
/// however long it is ticked, and reports that it has just finished only on
/// the tick that finished it.
pub proof fn lemma_finished_once_timer_is_stable(t: Timer, delta: u64)
    requires
        t.mode == TimerMode::Once,
        t.finished,
    ensures
        t.ticked(delta).finished,
        t.ticked(delta).elapsed == t.elapsed,
        !t.ticked(delta).just_finished_spec(),
{
}

/// A running one-shot timer finishes on exactly the tick that brings the time
/// elapsed up to its duration, and that tick alone reports it.
pub proof fn lemma_once_timer_finishes_when_due(t: Timer, delta: u64)
    requires
        t.mode == TimerMode::Once,
        !t.finished,
    ensures
        t.ticked(delta).finished <==> t.elapsed + delta >= t.duration,
        t.ticked(delta).just_finished_spec() == t.ticked(delta).finished,
        t.ticked(delta).finished ==> t.ticked(delta).elapsed == t.duration,
        !t.ticked(delta).finished ==> t.ticked(delta).elapsed == t.elapsed + delta,
{
}

/// A stopwatch: the time that has passed since it was started or reset.
#[derive(Clone, Copy, PartialEq, Eq, Structural, Debug)]
pub struct Stopwatch {
    pub elapsed: u64,
}

impl Stopwatch {
    /// Creates a stopwatch at zero.
    pub fn new() -> (s: Stopwatch)
        ensures
            s.elapsed == 0,
    {
        Stopwatch { elapsed: 0 }
    }

    /// Advances the stopwatch by `delta` nanoseconds.
    pub fn tick(&mut self, delta: u64)
        requires
            old(self).elapsed + delta <= u64::MAX,
        ensures
            final(self).elapsed == old(self).elapsed + delta,
    {
        self.elapsed = engine_stopwatch_tick(self.elapsed, delta);
    }

    /// The time on the stopwatch.
    pub fn elapsed(&self) -> (e: u64)
        ensures
            e == self.elapsed,
    {
        self.elapsed
    }

    /// Sets the stopwatch back to zero.
    pub fn reset(&mut self)
        ensures
            final(self).elapsed == 0,
    {
        self.elapsed = 0;
    }
}

} // verus!
