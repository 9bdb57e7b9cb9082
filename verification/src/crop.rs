//! Prepared-dirt plots and crop growth.
//!
//! A plot is created when a "prepare dirt" item is placed.  While its
//! "actively growing" flag is set, its countdown timer advances with the
//! tick delta; each time the timer elapses the growth stage rises by exactly
//! one.  While the flag is clear the plot does not change at all.  Nothing
//! in the current behaviour completes a crop: the completion flag exists but
//! stays false.

use vstd::prelude::*;
use crate::geom::Pos;
use crate::player::ItemType;
use crate::timer::Timer;

verus! {

/// Milliseconds one growth stage takes.
pub const GROWTH_PERIOD_MS: u64 = 60_000;

#[derive(Clone, Copy, PartialEq, Eq, Structural, Debug)]
pub enum CropType {
    Potato,
}

/// State of one prepared-dirt plot.
#[derive(Clone, Copy, PartialEq, Eq, Structural, Debug)]
pub struct PreparedDirtData {
    pub item_type: ItemType,
    pub crop_type: CropType,
    /// The player picked a crop kind from the plot's menu.
    pub crop_type_selected: bool,
    /// Number of completed growth stages; never decreases.
    pub growth_state: i32,
    /// A worker is tending the plot right now.
    pub growth_active: bool,
    /// Reserved for finishing a crop; nothing sets it yet.
    pub growth_complete: bool,
    pub growth_state_timer: Timer,
    /// A worker has claimed this plot.
    pub worker_assigned_bool: bool,
    /// The claiming worker's identity; 0 until a worker claims the plot.
    pub worker_assigned_entity: u64,
}

impl PreparedDirtData {
    pub open spec fn wf(self) -> bool {
        &&& self.growth_state_timer.wf()
        &&& self.growth_state >= 0
    }

    /// A freshly placed plot: stage 0, idle, unclaimed, one-shot timer.
    pub open spec fn fresh_s() -> PreparedDirtData {
        PreparedDirtData {
            item_type: ItemType::Dirt,
            crop_type: CropType::Potato,
            crop_type_selected: false,
            growth_state: 0,
            growth_active: false,
            growth_complete: false,
            growth_state_timer: Timer {
                elapsed_ms: 0,
                period_ms: GROWTH_PERIOD_MS,
                repeating: false,
            },
            worker_assigned_bool: false,
            worker_assigned_entity: 0,
        }
    }

    pub fn fresh() -> (d: PreparedDirtData)
        ensures
            d == PreparedDirtData::fresh_s(),
            d.wf(),
    {
        PreparedDirtData {
            item_type: ItemType::Dirt,
            crop_type: CropType::Potato,
            crop_type_selected: false,
            growth_state: 0,
            growth_active: false,
            growth_complete: false,
            growth_state_timer: Timer::new(GROWTH_PERIOD_MS, false),
            worker_assigned_bool: false,
            worker_assigned_entity: 0,
        }
    }

    /// The plot after a tick: inactive plots are untouched; an active plot
    /// advances its timer and, when the timer fires, gains one growth stage
    /// (saturating at the integer cap, which real sessions never reach).
    pub open spec fn growth_tick_s(self, dt: int) -> PreparedDirtData {
        if !self.growth_active {
            self
        } else {
            let (timer, fired) = self.growth_state_timer.tick_s(dt);
            PreparedDirtData {
                growth_state_timer: timer,
                growth_state: if fired && self.growth_state < i32::MAX {
                    (self.growth_state + 1) as i32
                } else {
                    self.growth_state
                },
                ..self
            }
        }
    }

    /// Advance the plot by one tick.  Growth is monotone: the stage never
    /// decreases, rises by exactly one when the active timer fires, and
    /// never changes while the plot is inactive.
    pub fn growth_tick(&mut self, dt: u64)
        requires
            old(self).wf(),
            dt <= crate::geom::MAX_TICK_MS,
        ensures
            *final(self) == old(self).growth_tick_s(dt as int),
            final(self).wf(),
            final(self).growth_state >= old(self).growth_state,
            !old(self).growth_active ==> *final(self) == *old(self),
            (old(self).growth_active && old(self).growth_state_timer.tick_s(dt as int).1
                && old(self).growth_state < i32::MAX)
                ==> final(self).growth_state == old(self).growth_state + 1,
            (old(self).growth_active && !old(self).growth_state_timer.tick_s(dt as int).1)
                ==> final(self).growth_state == old(self).growth_state,
            final(self).growth_active == old(self).growth_active,
            final(self).worker_assigned_bool == old(self).worker_assigned_bool,
            final(self).worker_assigned_entity == old(self).worker_assigned_entity,
            final(self).crop_type_selected == old(self).crop_type_selected,
            final(self).item_type == old(self).item_type,
            final(self).crop_type == old(self).crop_type,
            final(self).growth_complete == old(self).growth_complete,
    {
        if self.growth_active {
            let fired = self.growth_state_timer.tick(dt);
            if fired && self.growth_state < i32::MAX {
                self.growth_state = self.growth_state + 1;
            }
        }
    }
}

/// A prepared-dirt plot entity: a stable identity, a world position, and
/// its plot state.
#[derive(Clone, Copy, PartialEq, Eq, Structural, Debug)]
pub struct DirtPlot {
    pub id: u64,
    pub pos: Pos,
    pub data: PreparedDirtData,
}

/// Every plot advanced by one tick, as a whole sequence.
pub open spec fn growth_all_s(ps: Seq<DirtPlot>, dt: int) -> Seq<DirtPlot> {
    Seq::new(
        ps.len(),
        |i: int|
            DirtPlot { id: ps[i].id, pos: ps[i].pos, data: ps[i].data.growth_tick_s(dt) },
    )
}

/// Advance every actively growing plot by one tick; identities and
/// positions are untouched, and each plot changes exactly as
/// `PreparedDirtData::growth_tick_s` says.
pub fn crop_growth_manager(plots: &mut Vec<DirtPlot>, dt: u64)
    requires
        forall|i: int| 0 <= i < old(plots)@.len() ==> (#[trigger] old(plots)@[i]).data.wf(),
        dt <= crate::geom::MAX_TICK_MS,
    ensures
        final(plots)@.len() == old(plots)@.len(),
        forall|i: int|
            0 <= i < old(plots)@.len() ==> (#[trigger] final(plots)@[i]) == (DirtPlot {
                id: old(plots)@[i].id,
                pos: old(plots)@[i].pos,
                data: old(plots)@[i].data.growth_tick_s(dt as int),
            }),
        forall|i: int| 0 <= i < old(plots)@.len() ==> (#[trigger] final(plots)@[i]).data.wf(),
{
    let n: usize = plots.len();
    let mut i: usize = 0;
    while i < n
        invariant
            n == plots@.len(),
            i <= n,
            dt <= crate::geom::MAX_TICK_MS,
            forall|j: int| 0 <= j < n ==> (#[trigger] old(plots)@[j]).data.wf(),
            forall|j: int| i <= j < n ==> (#[trigger] plots@[j]) == old(plots)@[j],
            forall|j: int|
                0 <= j < i ==> (#[trigger] plots@[j]) == (DirtPlot {
                    id: old(plots)@[j].id,
                    pos: old(plots)@[j].pos,
                    data: old(plots)@[j].data.growth_tick_s(dt as int),
                }),
            forall|j: int| 0 <= j < i ==> (#[trigger] plots@[j]).data.wf(),
        decreases n - i,
    {
        let plot = &mut plots[i];
        plot.data.growth_tick(dt);
        i = i + 1;
    }
}

} // verus!
