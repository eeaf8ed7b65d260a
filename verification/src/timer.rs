use vstd::prelude::*;

verus! {

/// Nanoseconds in one millisecond.
pub const NANOS_PER_MILLI: u64 = 1_000_000;
/// Nanoseconds in one second.
pub const NANOS_PER_SEC: u64 = 1_000_000_000;

/// A one-shot countdown timer measured in nanoseconds.
///
/// The timer counts `elapsed` up towards `duration` while not paused. Once the elapsed time
/// reaches the duration, the timer is `finished` and stops counting (the elapsed time is
/// clamped to the duration) until it is reset. `just_finished` tells whether the latest tick
/// is the one that finished it.
#[derive(Clone, Copy, Debug, PartialEq, Eq, Structural)]
pub struct Timer {
    pub duration: u64,
    pub elapsed: u64,
    pub paused: bool,
    pub finished: bool,
    pub just_finished: bool,
}

impl Timer {
    /// The state of the timer after ticking it by `delta` nanoseconds.
    pub open spec fn ticked(self, delta: u64) -> Timer {
        if self.paused || self.finished {
            Timer { just_finished: false, ..self }
        } else if self.elapsed + delta >= self.duration {
            Timer { elapsed: self.duration, finished: true, just_finished: true, ..self }
        } else {
            Timer { elapsed: (self.elapsed + delta) as u64, just_finished: false, ..self }
        }
    }

    /// A fresh, running timer of the given duration.
    pub open spec fn spec_new(duration: u64) -> Timer {
        Timer { duration, elapsed: 0, paused: false, finished: false, just_finished: false }
    }

    /// The state of the timer after a reset: nothing elapsed, not finished, same pause state.
    pub open spec fn spec_reset(self) -> Timer {
        Timer { elapsed: 0, finished: false, just_finished: false, ..self }
    }

    /// Creates a running timer of the given duration in nanoseconds.
    pub fn new(duration: u64) -> (timer: Timer)
        ensures
            timer == Timer::spec_new(duration),
    {
        Timer { duration, elapsed: 0, paused: false, finished: false, just_finished: false }
    }

    /// Advances the timer by `delta` nanoseconds (unless paused or already finished).
    pub fn tick(&mut self, delta: u64)
        ensures
            *final(self) == old(self).ticked(delta),
    {
        if self.paused || self.finished {
            self.just_finished = false;
        } else {
            let sum: u64 = self.elapsed.saturating_add(delta);
            if sum >= self.duration {
                self.elapsed = self.duration;
                self.finished = true;
                self.just_finished = true;
            } else {
                self.elapsed = sum;
                self.just_finished = false;
            }
        }
    }

    /// Whether the elapsed time has reached the duration.
    pub fn finished(&self) -> (b: bool)
        ensures
            b == self.finished,
    {
        self.finished
    }

    /// Whether the latest tick finished the timer.
    pub fn just_finished(&self) -> (b: bool)
        ensures
            b == self.just_finished,
    {
        self.just_finished
    }

    /// Whether the timer is paused.
    pub fn paused(&self) -> (b: bool)
        ensures
            b == self.paused,
    {
        self.paused
    }

    /// Pauses the timer: ticks do not advance it.
    pub fn pause(&mut self)
        ensures
            *final(self) == (Timer { paused: true, ..*old(self) }),
    {
        self.paused = true;
    }

    /// Resumes the timer.
    pub fn unpause(&mut self)
        ensures
            *final(self) == (Timer { paused: false, ..*old(self) }),
    {
        self.paused = false;
    }

    /// Resets the elapsed time and the finished state; the pause state stays.
    pub fn reset(&mut self)
        ensures
            *final(self) == old(self).spec_reset(),
    {
        self.elapsed = 0;
        self.finished = false;
        self.just_finished = false;
    }

    /// Changes the duration of the timer; nothing else changes.
    pub fn set_duration(&mut self, duration: u64)
        ensures
            *final(self) == (Timer { duration, ..*old(self) }),
    {
        self.duration = duration;
    }

    /// The duration of the timer in nanoseconds.
    pub fn duration(&self) -> (d: u64)
        ensures
            d == self.duration,
    {
        self.duration
    }

    /// The elapsed time of the timer in nanoseconds.
    pub fn elapsed(&self) -> (e: u64)
        ensures
            e == self.elapsed,
    {
        self.elapsed
    }

    /// The time left before the timer finishes, in nanoseconds.
    pub fn remaining(&self) -> (r: u64)
        ensures
            r == if self.elapsed <= self.duration { self.duration - self.elapsed } else { 0 },
    {
        self.duration.saturating_sub(self.elapsed)
    }
}

impl Default for Timer {
    /// A running timer of zero duration, not finished.
    fn default() -> (timer: Self)
        ensures
            timer == Timer::spec_new(0),
    {
        Timer::new(0)
    }
}

/// A one-shot timer, once finished, stays finished and keeps its elapsed time by every tick
/// until it is reset; a tick never carries the elapsed time past the duration when it started
/// at or below it.
pub proof fn lemma_timer_finishes_once(t: Timer, delta: u64)
    ensures
        t.finished ==> t.ticked(delta).finished && t.ticked(delta).elapsed == t.elapsed
            && !t.ticked(delta).just_finished,
        t.elapsed <= t.duration ==> t.ticked(delta).elapsed <= t.duration,
        t.ticked(delta).just_finished ==> t.ticked(delta).finished && !t.finished,
        t.ticked(delta).duration == t.duration && t.ticked(delta).paused == t.paused,
{
}

/// A running, unfinished timer finishes on the tick that brings its elapsed time up to its
/// duration, and not before.
pub proof fn lemma_timer_finishes_when_due(t: Timer, delta: u64)
    requires
        !t.paused,
        !t.finished,
    ensures
        t.ticked(delta).finished <==> t.elapsed + delta >= t.duration,
{
}

} // verus!
