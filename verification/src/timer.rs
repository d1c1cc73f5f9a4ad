//! Tick bookkeeping for the 100 Hz system timer.
//!
//! The interrupt that fires the ticks is wired up outside this crate; what
//! lives here is the counter state it advances and the derived readings.

use vstd::prelude::*;

verus! {

/// Timer interrupts per second.
pub const TIMER_HZ: u32 = 100;

/// The configured timer frequency in ticks per second.
pub fn frequency() -> (r: u32)
    ensures
        r == TIMER_HZ,
{
    TIMER_HZ
}

/// The tick counters the timer interrupt advances: total ticks since boot
/// and the progress through the current second.
pub struct Ticker {
    ticks: u64,
    subsecond: u64,
}

impl Ticker {
    pub closed spec fn count(&self) -> int {
        self.ticks as int
    }

    pub closed spec fn sub(&self) -> int {
        self.subsecond as int
    }

    pub open spec fn wf(&self) -> bool {
        self.sub() < TIMER_HZ
    }

    pub fn new() -> (t: Ticker)
        ensures
            t.wf(),
            t.count() == 0,
            t.sub() == 0,
    {
        Ticker { ticks: 0, subsecond: 0 }
    }

    /// One timer interrupt: advance the counters (the total wraps at the
    /// top of its range) and report whether a full second has elapsed, so
    /// the caller can advance the wall clock.
    pub fn on_tick(&mut self) -> (second_elapsed: bool)
        requires
            old(self).wf(),
        ensures
            final(self).wf(),
            final(self).count() == (if old(self).count() == u64::MAX {
                0int
            } else {
                old(self).count() + 1
            }),
            second_elapsed == (old(self).sub() + 1 >= TIMER_HZ),
            final(self).sub() == (if second_elapsed {
                0int
            } else {
                old(self).sub() + 1
            }),
    {
        self.ticks = self.ticks.wrapping_add(1);
        self.subsecond = self.subsecond + 1;
        if self.subsecond >= TIMER_HZ as u64 {
            self.subsecond = 0;
            true
        } else {
            false
        }
    }

    /// Ticks since boot.
    pub fn ticks(&self) -> (r: u64)
        ensures
            r == self.count(),
    {
        self.ticks
    }

    /// Whole seconds since boot.
    pub fn seconds(&self) -> (r: u64)
        ensures
            r == self.count() / (TIMER_HZ as int),
    {
        self.ticks / (TIMER_HZ as u64)
    }
}

} // verus!
