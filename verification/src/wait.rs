//! Deadlines measured in timer ticks.
//!
//! A `Wait` is a target tick computed from a duration; polling it against
//! the current tick count decides when the wait is over.  The busy loop
//! that halts between polls belongs to the caller.

use vstd::prelude::*;

use crate::timer::TIMER_HZ;

verus! {

/// A deadline in absolute timer ticks.
pub struct Wait {
    target_tick: u64,
}

impl Wait {
    pub closed spec fn target(&self) -> int {
        self.target_tick as int
    }

    /// A deadline `seconds` from the tick count `now`.
    pub fn sec(now: u64, seconds: u64) -> (w: Wait)
        requires
            now + seconds * TIMER_HZ <= u64::MAX,
        ensures
            w.target() == now + seconds * TIMER_HZ,
    {
        Wait { target_tick: now + seconds * (TIMER_HZ as u64) }
    }

    /// A deadline `ms` milliseconds from the tick count `now`.
    pub fn ms(now: u64, ms: u64) -> (w: Wait)
        requires
            ms * TIMER_HZ <= u64::MAX,
            now + (ms * TIMER_HZ) / 1000 <= u64::MAX,
        ensures
            w.target() == now + (ms * TIMER_HZ) / 1000,
    {
        Wait { target_tick: now + (ms * (TIMER_HZ as u64)) / 1000 }
    }

    /// Whether the deadline has passed at tick count `now`.
    pub fn done(&self, now: u64) -> (r: bool)
        ensures
            r == (now >= self.target()),
    {
        now >= self.target_tick
    }

    /// Ticks still to go at tick count `now`; zero once done.
    pub fn remaining(&self, now: u64) -> (r: u64)
        ensures
            r == (if self.target() >= now {
                self.target() - now
            } else {
                0int
            }),
    {
        self.target_tick.saturating_sub(now)
    }
}

} // verus!
