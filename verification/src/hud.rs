//! State of the terminal heads-up display: whether it is shown, whether it
//! needs redrawing, and the once-a-second redraw cadence.
//!
//! The modules that render HUD text and the console rows they draw into
//! live outside this crate; these flags decide when they run.

use vstd::prelude::*;

use crate::timer::TIMER_HZ;

verus! {

/// HUD display state.
pub struct Hud {
    enabled: bool,
    needs_redraw: bool,
    tick_count: u64,
}

impl Hud {
    pub closed spec fn is_enabled(&self) -> bool {
        self.enabled
    }

    pub closed spec fn wants_redraw(&self) -> bool {
        self.needs_redraw
    }

    pub closed spec fn ticks(&self) -> int {
        self.tick_count as int
    }

    /// The HUD starts hidden.
    pub fn init() -> (h: Hud)
        ensures
            !h.is_enabled(),
            !h.wants_redraw(),
            h.ticks() == 0,
    {
        Hud { enabled: false, needs_redraw: false, tick_count: 0 }
    }

    /// Show the HUD and schedule a redraw.
    pub fn enable(&mut self)
        ensures
            final(self).is_enabled(),
            final(self).wants_redraw(),
            final(self).ticks() == old(self).ticks(),
    {
        self.enabled = true;
        self.needs_redraw = true;
    }

    /// Hide the HUD; the caller clears its console row.
    pub fn disable(&mut self)
        ensures
            !final(self).is_enabled(),
            final(self).wants_redraw() == old(self).wants_redraw(),
            final(self).ticks() == old(self).ticks(),
    {
        self.enabled = false;
    }

    /// One 100 Hz tick: while enabled, count, and once a second request a
    /// redraw; returns whether the caller should poll for drawing now.
    pub fn on_100hz_tick(&mut self) -> (draw: bool)
        ensures
            !old(self).is_enabled() ==> !draw && *final(self) == *old(self),
            old(self).is_enabled() ==> ({
                let bumped = if old(self).ticks() == u64::MAX {
                    0int
                } else {
                    old(self).ticks() + 1
                };
                &&& final(self).ticks() == bumped
                &&& draw == (bumped % (TIMER_HZ as int) == 0)
                &&& final(self).is_enabled()
                &&& final(self).wants_redraw() == (old(self).wants_redraw() || draw)
            }),
    {
        if !self.enabled {
            return false;
        }
        self.tick_count = self.tick_count.wrapping_add(1);
        if self.tick_count % (TIMER_HZ as u64) == 0 {
            self.needs_redraw = true;
            true
        } else {
            false
        }
    }

    /// Whether a redraw should run now; asking consumes the request.
    pub fn poll_draw(&mut self) -> (r: bool)
        ensures
            r == (old(self).is_enabled() && old(self).wants_redraw()),
            final(self).is_enabled() == old(self).is_enabled(),
            final(self).ticks() == old(self).ticks(),
            !final(self).wants_redraw() || !r,
            !old(self).is_enabled() ==> final(self).wants_redraw() == old(self).wants_redraw(),
    {
        if !self.enabled {
            return false;
        }
        if self.needs_redraw {
            self.needs_redraw = false;
            true
        } else {
            false
        }
    }
}

} // verus!
