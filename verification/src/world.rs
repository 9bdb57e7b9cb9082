//! The world clock: a repeating hour timer, an hour-of-day counter and an
//! AM/PM meridiem.
//!
//! Each time the timer fires the hour advances by one; past 12 it wraps back
//! to 1 and the meridiem flips.  The clock is the sole time source that gates
//! worker work-hours and feeds the time-of-day display.

use vstd::prelude::*;
use crate::timer::Timer;
use crate::timer::MAX_PERIOD_MS;
use vstd::arithmetic::div_mod::lemma_fundamental_div_mod;
use vstd::arithmetic::div_mod::lemma_fundamental_div_mod_converse_mod;
use vstd::arithmetic::div_mod::lemma_fundamental_div_mod_converse_div;

verus! {

/// Number of real milliseconds in one in-game hour: the clock's default period.
pub const HOUR_MS: u64 = 5000;

#[derive(Clone, Copy, PartialEq, Eq, Structural, Debug)]
pub enum Meridiem {
    AM,
    PM,
}

impl Meridiem {
    pub open spec fn flip_s(self) -> Meridiem {
        match self {
            Meridiem::AM => Meridiem::PM,
            Meridiem::PM => Meridiem::AM,
        }
    }
}

#[derive(Clone, Copy, PartialEq, Eq, Structural, Debug)]
pub struct WorldSettings {
    /// Repeating timer whose period is one in-game hour.
    pub day_timer: Timer,
    /// Hour of day: 0 only before the first firing, then wraps within 1..=12.
    pub actual_hour: u32,
    pub meridiem: Meridiem,
}

impl WorldSettings {
    pub open spec fn wf(self) -> bool {
        &&& self.day_timer.wf()
        &&& self.day_timer.repeating
        &&& self.actual_hour <= 12
    }

    /// The clock state the session starts from: hour 0, AM, nothing elapsed.
    pub open spec fn start_s(period_ms: u64) -> WorldSettings {
        WorldSettings {
            day_timer: Timer { elapsed_ms: 0, period_ms, repeating: true },
            actual_hour: 0,
            meridiem: Meridiem::AM,
        }
    }

    /// Hour and meridiem after one firing of the hour timer: the hour
    /// increments, and past 12 it resets to 1 and flips the meridiem.
    pub open spec fn advance_hour_s(self) -> WorldSettings {
        if self.actual_hour + 1 > 12 {
            WorldSettings {
                day_timer: self.day_timer,
                actual_hour: 1,
                meridiem: self.meridiem.flip_s(),
            }
        } else {
            WorldSettings {
                day_timer: self.day_timer,
                actual_hour: (self.actual_hour + 1) as u32,
                meridiem: self.meridiem,
            }
        }
    }

    /// The whole clock after a tick of `dt` milliseconds.
    pub open spec fn tick_s(self, dt: int) -> WorldSettings {
        let (timer, fired) = self.day_timer.tick_s(dt);
        let stepped = WorldSettings {
            day_timer: timer,
            actual_hour: self.actual_hour,
            meridiem: self.meridiem,
        };
        if fired {
            stepped.advance_hour_s()
        } else {
            stepped
        }
    }

    pub fn new(period_ms: u64) -> (w: WorldSettings)
        requires
            1 <= period_ms <= MAX_PERIOD_MS,
        ensures
            w == WorldSettings::start_s(period_ms),
            w.wf(),
    {
        WorldSettings {
            day_timer: Timer::new(period_ms, true),
            actual_hour: 0,
            meridiem: Meridiem::AM,
        }
    }

    /// Advance the hour timer; each firing moves the clock forward one hour.
    pub fn day_timer_tick(&mut self, dt: u64)
        requires
            old(self).wf(),
            dt <= crate::geom::MAX_TICK_MS,
        ensures
            *final(self) == old(self).tick_s(dt as int),
            final(self).wf(),
    {
        let fired = self.day_timer.tick(dt);
        if fired {
            self.actual_hour = self.actual_hour + 1;
            if self.actual_hour > 12 {
                self.actual_hour = 1;
                self.meridiem = match self.meridiem {
                    Meridiem::AM => Meridiem::PM,
                    Meridiem::PM => Meridiem::AM,
                };
            }
        }
    }
}

/// The clock after the hour timer has fired `n` times.
pub open spec fn advanced_s(w: WorldSettings, n: nat) -> WorldSettings
    decreases n,
{
    if n == 0 {
        w
    } else {
        advanced_s(w, (n - 1) as nat).advance_hour_s()
    }
}

/// Clock wraparound: starting from hour 0 AM, after `n >= 1` firings of the
/// hour timer the hour of day is `((n - 1) % 12) + 1`, and the meridiem has
/// flipped once per 12 firings, alternating AM and PM.
pub proof fn lemma_clock_wraparound(period_ms: u64, n: nat)
    requires
        n >= 1,
    ensures
        advanced_s(WorldSettings::start_s(period_ms), n).actual_hour == ((n - 1) % 12) + 1,
        advanced_s(WorldSettings::start_s(period_ms), n).meridiem == (if ((n - 1) / 12) % 2 == 0 {
            Meridiem::AM
        } else {
            Meridiem::PM
        }),
    decreases n,
{
    let start = WorldSettings::start_s(period_ms);
    if n == 1 {
        assert(((1 - 1) as int % 12) == 0);
        assert(((1 - 1) as int / 12) == 0);
    } else {
        let m = (n - 1) as nat;
        lemma_clock_wraparound(period_ms, m);
        let prev = advanced_s(start, m);
        let r1 = (m - 1) % 12;
        let q1 = (m - 1) / 12;
        lemma_fundamental_div_mod((m - 1) as int, 12);
        if r1 == 11 {
            // The hour stood at 12: it wraps to 1 and the meridiem flips.
            assert((n - 1) as int == (q1 + 1) * 12 + 0) by {
                assert((q1 + 1) * 12 == q1 * 12 + 12) by (nonlinear_arith);
                assert(q1 * 12 == 12 * q1) by (nonlinear_arith);
            }
            lemma_fundamental_div_mod_converse_mod((n - 1) as int, 12, q1 + 1, 0);
            lemma_fundamental_div_mod_converse_div((n - 1) as int, 12, q1 + 1, 0);
        } else {
            assert((n - 1) as int == q1 * 12 + (r1 + 1)) by {
                assert(q1 * 12 == 12 * q1) by (nonlinear_arith);
            }
            lemma_fundamental_div_mod_converse_mod((n - 1) as int, 12, q1, r1 + 1);
            lemma_fundamental_div_mod_converse_div((n - 1) as int, 12, q1, r1 + 1);
        }
    }
}

} // verus!
