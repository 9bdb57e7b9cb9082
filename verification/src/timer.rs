//! Countdown timers driven by the per-frame tick delta.
//!
//! A timer accumulates elapsed milliseconds up to its period.  A repeating
//! timer fires when the accumulated time crosses the period and keeps the
//! remainder; a one-shot timer fires once when it first reaches its period
//! and then stays finished.  Firing at most once per tick mirrors how a
//! "just finished" edge is reported to the systems that consume it.

use vstd::prelude::*;

verus! {

/// Upper bound on a timer period: about eleven and a half days.
pub const MAX_PERIOD_MS: u64 = 1_000_000_000;

#[derive(Clone, Copy, PartialEq, Eq, Structural, Debug)]
pub struct Timer {
    /// Milliseconds accumulated toward the next firing; never above the period.
    pub elapsed_ms: u64,
    /// The timer fires each time this many milliseconds have accumulated.
    pub period_ms: u64,
    /// Whether the timer restarts after firing or stays finished.
    pub repeating: bool,
}

impl Timer {
    pub open spec fn wf(self) -> bool {
        &&& 1 <= self.period_ms <= MAX_PERIOD_MS
        &&& self.elapsed_ms <= self.period_ms
    }

    /// A one-shot timer is finished once it has reached its period.
    pub open spec fn finished_s(self) -> bool {
        self.elapsed_ms == self.period_ms
    }

    /// The timer after a tick of `dt` milliseconds, and whether it fired.
    pub open spec fn tick_s(self, dt: int) -> (Timer, bool) {
        if self.repeating {
            if self.elapsed_ms + dt >= self.period_ms {
                (
                    Timer {
                        elapsed_ms: ((self.elapsed_ms + dt) % (self.period_ms as int)) as u64,
                        period_ms: self.period_ms,
                        repeating: self.repeating,
                    },
                    true,
                )
            } else {
                (
                    Timer {
                        elapsed_ms: (self.elapsed_ms + dt) as u64,
                        period_ms: self.period_ms,
                        repeating: self.repeating,
                    },
                    false,
                )
            }
        } else {
            if self.finished_s() {
                (self, false)
            } else if self.elapsed_ms + dt >= self.period_ms {
                (
                    Timer {
                        elapsed_ms: self.period_ms,
                        period_ms: self.period_ms,
                        repeating: self.repeating,
                    },
                    true,
                )
            } else {
                (
                    Timer {
                        elapsed_ms: (self.elapsed_ms + dt) as u64,
                        period_ms: self.period_ms,
                        repeating: self.repeating,
                    },
                    false,
                )
            }
        }
    }

    pub fn new(period_ms: u64, repeating: bool) -> (t: Timer)
        requires
            1 <= period_ms <= MAX_PERIOD_MS,
        ensures
            t == (Timer { elapsed_ms: 0, period_ms, repeating }),
            t.wf(),
    {
        Timer { elapsed_ms: 0, period_ms, repeating }
    }

    /// Advance the timer by `dt` milliseconds; the result says whether the
    /// timer fired during this tick.
    pub fn tick(&mut self, dt: u64) -> (fired: bool)
        requires
            old(self).wf(),
            dt <= crate::geom::MAX_TICK_MS,
        ensures
            *final(self) == old(self).tick_s(dt as int).0,
            fired == old(self).tick_s(dt as int).1,
            final(self).wf(),
            final(self).period_ms == old(self).period_ms,
            final(self).repeating == old(self).repeating,
    {
        if !self.repeating && self.elapsed_ms == self.period_ms {
            return false;
        }
        let total: u64 = self.elapsed_ms + dt;
        if total >= self.period_ms {
            if self.repeating {
                self.elapsed_ms = total % self.period_ms;
            } else {
                self.elapsed_ms = self.period_ms;
            }
            true
        } else {
            self.elapsed_ms = total;
            false
        }
    }
}

} // verus!
