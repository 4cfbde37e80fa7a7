//! The fixed-period timer that admits movement steps.
use vstd::prelude::*;
use bevy::time::{Timer, TimerMode};

verus! {

/// Period between movement steps, in microseconds.
pub const TICK_PERIOD_MICROS: u64 = 150_000;

/// A repeating timer: it admits one step each time its period has elapsed.
#[derive(Clone, Copy, Debug, PartialEq, Eq, Structural)]
pub struct TickTimer {
    pub period: u64,
    pub elapsed: u64,
}

impl TickTimer {
    /// The period is positive and the time carried over is less than it.
    pub open spec fn wf(&self) -> bool {
        0 < self.period && self.elapsed < self.period
    }

    /// A timer with the given period and nothing elapsed yet.
    pub fn new(period: u64) -> (r: Self)
        requires
            period > 0,
        ensures
            r.period == period,
            r.elapsed == 0,
            r.wf(),
    {
        TickTimer { period, elapsed: 0 }
    }

    /// Whether ticking by `delta` stays within what the underlying timer
    /// counts: at most `u32::MAX` whole periods at once.
    pub open spec fn admits(&self, delta: u64) -> bool {
        (self.elapsed + delta) / (self.period as int) <= u32::MAX
    }

    /// Whether ticking by `delta` is allowed.
    pub fn delta_fits(&self, delta: u64) -> (r: bool)
        requires
            self.wf(),
        ensures
            r == self.admits(delta),
    {
        let room = u64::MAX - self.elapsed;
        if delta <= room {
            (self.elapsed + delta) / self.period <= u32::MAX as u64
        } else {
            let total: u128 = self.elapsed as u128 + delta as u128;
            total / (self.period as u128) <= u32::MAX as u128
        }
    }

    /// Adds `delta` to the elapsed time. Returns true, and keeps only the
    /// remainder modulo the period, when a full period has elapsed; however
    /// many periods went by, one step is admitted.
    pub fn tick(&mut self, delta: u64) -> (fired: bool)
        requires
            old(self).wf(),
            old(self).admits(delta),
        ensures
            fired == (old(self).elapsed + delta >= old(self).period),
            final(self).period == old(self).period,
            final(self).elapsed == (old(self).elapsed + delta) % (old(self).period as int),
            final(self).wf(),
    {
        let (fired, rest) = repeating_timer_tick(self.period, self.elapsed, delta);
        self.elapsed = rest;
        fired
    }
}

/// Relies on bevy's repeating `Timer` (the timer behind `on_timer`), ticked
/// once by `delta` microseconds after `elapsed` of a `period` had run: it
/// has just finished exactly when the sum reaches the period, and keeps the
/// sum modulo the period. It counts whole periods in a `u32`, hence the bound.
#[verifier::external_body]
fn repeating_timer_tick(period: u64, elapsed: u64, delta: u64) -> (r: (bool, u64))
    requires
        0 < period,
        elapsed < period,
        (elapsed + delta) / (period as int) <= u32::MAX,
    ensures
        r.0 == (elapsed + delta >= period),
        r.1 == (elapsed + delta) % (period as int),
{
    let mut timer = Timer::new(std::time::Duration::from_micros(period), TimerMode::Repeating);
    timer.set_elapsed(std::time::Duration::from_micros(elapsed));
    timer.tick(std::time::Duration::from_micros(delta));
    (timer.just_finished(), timer.elapsed().as_micros() as u64)
}

} // verus!
