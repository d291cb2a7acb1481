//! Countdown timers.
//!
//! A [`Cooldown`] counts elapsed nanoseconds up to its duration. A one-shot
//! cooldown completes once and then stays inert; a repeating one carries the
//! overflow into its next interval, so no interval is lost at a low tick
//! rate. The counting itself is done by `bevy`'s `Timer`; this module states
//! what that timer does and builds the cooldown on it.

use bevy::time::Timer;
use bevy::time::TimerMode;
use std::time::Duration;
use vstd::prelude::*;

verus! {

/// `bevy::time::Timer`, carried as an opaque value.
#[verifier::external_type_specification]
#[verifier::external_body]
pub struct ExTimer(Timer);

/// `bevy::time::TimerMode`, with its two variants `Once` and `Repeating`.
#[verifier::external_type_specification]
pub struct ExTimerMode(TimerMode);

/// What a timer holds, in nanoseconds.
pub struct TimerState {
    /// The length of one interval.
    pub duration: nat,
    /// Time counted in the current interval.
    pub elapsed: nat,
    pub mode: TimerMode,
    /// Whether the last tick ended at or past the end of an interval.
    pub finished: bool,
    /// How many intervals the last tick completed.
    pub times_finished: nat,
    /// A paused timer does not count.
    pub paused: bool,
}

/// The state held inside a `bevy` timer.
pub uninterp spec fn timer_state(timer: Timer) -> TimerState;

/// The most nanoseconds a `std::time::Duration` can hold.
pub open spec fn max_duration_nanos() -> nat {
    (u64::MAX as nat) * 1_000_000_000 + 999_999_999
}

impl TimerState {
    /// A timer as it is made: nothing counted yet.
    pub open spec fn fresh(duration: nat, mode: TimerMode) -> TimerState {
        TimerState { duration, elapsed: 0, mode, finished: false, times_finished: 0, paused: false }
    }

    /// The timer started over: nothing counted, nothing finished.
    pub open spec fn restarted(self) -> TimerState {
        TimerState { elapsed: 0, finished: false, times_finished: 0, ..self }
    }

    /// Whether the last tick completed an interval.
    pub open spec fn just_finished(self) -> bool {
        self.times_finished > 0
    }

    /// A timer that runs, with a positive duration that fits in 64 bits and
    /// an elapsed time within it.
    pub open spec fn counting(self) -> bool {
        &&& !self.paused
        &&& 0 < self.duration <= u64::MAX
        &&& self.elapsed <= self.duration
    }

    /// The state after a tick of `delta` nanoseconds on a timer that is not
    /// paused and whose duration is not zero.
    ///
    /// A finished one-shot timer only forgets that it has just finished. Any
    /// other timer adds `delta` to its elapsed time. If that reaches the
    /// duration, a one-shot timer stops there, having finished once; a
    /// repeating timer keeps the remainder and has finished once per whole
    /// interval, counted in 32 bits.
    pub open spec fn ticked(self, delta: nat) -> TimerState {
        let total = self.elapsed + delta;
        if self.mode != TimerMode::Repeating && self.finished {
            TimerState { times_finished: 0, ..self }
        } else if total < self.duration {
            TimerState { elapsed: total, finished: false, times_finished: 0, ..self }
        } else if self.mode == TimerMode::Repeating {
            TimerState {
                elapsed: total % self.duration,
                finished: true,
                times_finished: (total / self.duration) % 0x1_0000_0000,
                ..self
            }
        } else {
            TimerState { elapsed: self.duration, finished: true, times_finished: 1, ..self }
        }
    }

    /// A tick keeps a counting timer counting.
    pub proof fn lemma_ticked_counting(self, delta: nat)
        requires
            self.counting(),
        ensures
            self.ticked(delta).counting(),
            self.ticked(delta).duration == self.duration,
            self.ticked(delta).mode == self.mode,
    {
        let total = self.elapsed + delta;
        if total >= self.duration {
            assert(total % self.duration < self.duration) by (nonlinear_arith)
                requires
                    self.duration > 0,
            ;
        }
    }

    /// When a tick completes. No tick that leaves the elapsed time short of
    /// the duration completes anything. A one-shot timer completes in the
    /// one tick that takes it to its duration, and stays finished without
    /// completing again. A repeating timer completes in every tick that
    /// reaches the duration, as long as the count of intervals completed at
    /// once fits in 32 bits.
    pub proof fn lemma_completion_edge(self, delta: nat)
        requires
            self.counting(),
        ensures
            self.elapsed + delta < self.duration ==> !self.ticked(delta).just_finished(),
            self.mode == TimerMode::Once ==> {
                let reached = self.elapsed + delta >= self.duration;
                &&& self.ticked(delta).just_finished() == (!self.finished && reached)
                &&& self.ticked(delta).finished == (self.finished || reached)
            },
            self.mode == TimerMode::Repeating && self.elapsed + delta < 0x1_0000_0000
                * self.duration ==> {
                let reached = self.elapsed + delta >= self.duration;
                &&& self.ticked(delta).just_finished() == reached
                &&& self.ticked(delta).finished == reached
            },
    {
        let total = (self.elapsed + delta) as int;
        let d = self.duration as int;
        if self.mode == TimerMode::Repeating && total < 0x1_0000_0000 * d && total >= d {
            assert(1 <= total / d < 0x1_0000_0000) by (nonlinear_arith)
                requires
                    d > 0,
                    d <= total < 0x1_0000_0000 * d,
            ;
        }
    }
}

/// Calls `Timer::new` with a duration of `duration_nanos` nanoseconds. The new
/// timer has counted nothing, has not finished and is not paused.
#[verifier::external_body]
fn new_timer(duration_nanos: u64, mode: TimerMode) -> (timer: Timer)
    ensures
        timer_state(timer) == TimerState::fresh(duration_nanos as nat, mode),
{
    Timer::new(Duration::from_nanos(duration_nanos), mode)
}

/// Calls `Timer::tick` with a delta of `delta_nanos` nanoseconds. The caller
/// keeps the sum of elapsed time and delta within what a `Duration` holds,
/// where `bevy` would panic otherwise; the duration must fit in 64 bits of
/// nanoseconds, as the remainder kept by a repeating timer is cut to that.
#[verifier::external_body]
fn tick_timer(timer: &mut Timer, delta_nanos: u64)
    requires
        !timer_state(*old(timer)).paused,
        0 < timer_state(*old(timer)).duration <= u64::MAX,
        timer_state(*old(timer)).elapsed + delta_nanos <= max_duration_nanos(),
    ensures
        timer_state(*final(timer)) == timer_state(*old(timer)).ticked(delta_nanos as nat),
    no_unwind
{
    timer.tick(Duration::from_nanos(delta_nanos));
}

/// `Timer::finished` reads the timer's `finished` flag.
pub assume_specification[ Timer::finished ](timer: &Timer) -> (b: bool)
    ensures
        b == timer_state(*timer).finished,
;

/// `Timer::just_finished` tells whether the last tick completed an interval.
pub assume_specification[ Timer::just_finished ](timer: &Timer) -> (b: bool)
    ensures
        b == timer_state(*timer).just_finished(),
;

/// `Timer::reset` clears the elapsed time and both completion marks.
#[verifier::external_body]
fn reset_timer(timer: &mut Timer)
    ensures
        timer_state(*final(timer)) == timer_state(*old(timer)).restarted(),
    no_unwind
{
    timer.reset();
}

/// A countdown over a fixed, positive duration.
pub struct Cooldown {
    timer: Timer,
}

impl View for Cooldown {
    type V = TimerState;

    closed spec fn view(&self) -> TimerState {
        timer_state(self.timer)
    }
}

impl Cooldown {
    /// A cooldown always runs, has a positive duration, and never counts
    /// past it.
    #[verifier::type_invariant]
    closed spec fn inv(self) -> bool {
        self@.counting()
    }

    /// A one-shot cooldown of `duration_nanos` nanoseconds.
    pub fn once(duration_nanos: u64) -> (c: Cooldown)
        requires
            duration_nanos > 0,
        ensures
            c@ == TimerState::fresh(duration_nanos as nat, TimerMode::Once),
    {
        Cooldown { timer: new_timer(duration_nanos, TimerMode::Once) }
    }

    /// A repeating cooldown with intervals of `duration_nanos` nanoseconds.
    pub fn repeating(duration_nanos: u64) -> (c: Cooldown)
        requires
            duration_nanos > 0,
        ensures
            c@ == TimerState::fresh(duration_nanos as nat, TimerMode::Repeating),
    {
        Cooldown { timer: new_timer(duration_nanos, TimerMode::Repeating) }
    }

    /// Advances the cooldown by `delta_nanos` nanoseconds. Nothing
    /// completes while the time counted stays short of the duration.
    pub fn tick(&mut self, delta_nanos: u64)
        ensures
            final(self)@ == old(self)@.ticked(delta_nanos as nat),
            old(self)@.counting(),
            final(self)@.counting(),
            old(self)@.elapsed + delta_nanos < old(self)@.duration
                ==> !final(self)@.just_finished(),
    {
        proof {
            use_type_invariant(&*self);
            self@.lemma_ticked_counting(delta_nanos as nat);
            self@.lemma_completion_edge(delta_nanos as nat);
        }
        tick_timer(&mut self.timer, delta_nanos);
    }

    /// Starts the cooldown over, as if it had just been made.
    pub fn reset(&mut self)
        ensures
            final(self)@ == old(self)@.restarted(),
    {
        proof {
            use_type_invariant(&*self);
        }
        reset_timer(&mut self.timer);
    }

    /// Whether the last tick completed an interval. True exactly in the tick
    /// in which the completion happens.
    pub fn just_finished(&self) -> (b: bool)
        ensures
            b == self@.just_finished(),
    {
        self.timer.just_finished()
    }

    /// Whether the last tick ended at or past the end of an interval. A
    /// one-shot cooldown stays finished once it is; a repeating one is
    /// finished only in the tick that completes an interval.
    pub fn finished(&self) -> (b: bool)
        ensures
            b == self@.finished,
    {
        self.timer.finished()
    }
}

} // verus!
