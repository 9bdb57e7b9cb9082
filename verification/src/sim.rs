//! The owned simulation context: every piece of core state, the placement
//! entry point, and the per-frame tick pipeline.
//!
//! One `Sim` value holds the occupancy registries, the inventory and
//! selection, all entities (houses, plots, pickups, workers), the world
//! clock and the housing counter.  The caller drives it with placement
//! requests and tick deltas; everything else is internal.  `wf` is the
//! global invariant every entry point preserves: registries hold a tile at
//! most once, stack quantities are never negative, house assignments stay
//! within capacity and are backed by real workers, no two workers claim the
//! same pickup, and every stored position is in world bounds.

use vstd::prelude::*;
use crate::geom::Pos;
use crate::geom::Tile;
use crate::geom::MAX_TICK_MS;
use crate::player::ItemType;
use crate::player::ItemStack;
use crate::player::PlayerInventory;
use crate::player::CoinsSpawned;
use crate::gameui::UiSlot;
use crate::gameui::ItemSelected;
use crate::buildings::BuildingCoords;
use crate::buildings::BuildingTuple;
use crate::buildings::BuildingType;
use crate::buildings::House;
use crate::buildings::HouseData;
use crate::buildings::HOUSE_CAPACITY;
use crate::crop::DirtPlot;
use crate::crop::PreparedDirtData;
use crate::world::WorldSettings;
use crate::world::HOUR_MS;
use crate::worker::Worker;
use crate::worker::WorkerState;
use crate::worker::WorkerAmount;
use crate::worker::CoinPickup;
use crate::worker::worker_ids_distinct_s;
use crate::worker::house_member_link_s;
use crate::worker::member_backed_s;
use crate::worker::single_claim_s;

verus! {

/// Workers each house allows for in the town counter; houses start small.
pub const WORKERS_PER_HOUSE: i32 = 1;

pub struct Sim {
    /// Source of fresh entity identities; strictly above every id in use.
    pub next_id: u64,
    pub building_coords: BuildingCoords,
    pub building_tuple: BuildingTuple,
    pub coins_spawned: CoinsSpawned,
    pub inventory: PlayerInventory,
    pub ui_slots: Vec<UiSlot>,
    pub selected: ItemSelected,
    pub pickups: Vec<CoinPickup>,
    pub houses: Vec<House>,
    pub plots: Vec<DirtPlot>,
    pub workers: Vec<Worker>,
    pub clock: WorldSettings,
    pub worker_amount: WorkerAmount,
}

impl Sim {
    /// The two occupancy registries track the same set of tiles.
    pub open spec fn registries_in_sync_s(self) -> bool {
        forall|t: Tile|
            #[trigger] self.building_coords.data@.contains(t)
                <==> self.building_tuple.contains_tile_s(t)
    }

    /// The global invariant; every entry point preserves it.
    pub open spec fn wf(self) -> bool {
        &&& self.building_coords.wf()
        &&& self.building_tuple.wf()
        &&& self.registries_in_sync_s()
        &&& self.coins_spawned.wf()
        &&& self.inventory.wf()
        &&& self.clock.wf()
        &&& forall|j: int| 0 <= j < self.pickups@.len() ==> (#[trigger] self.pickups@[j]).pos.wf()
        &&& forall|h: int|
            0 <= h < self.houses@.len() ==> (#[trigger] self.houses@[h]).data.wf()
                && self.houses@[h].pos.wf()
        &&& forall|p: int|
            0 <= p < self.plots@.len() ==> (#[trigger] self.plots@[p]).data.wf()
                && self.plots@[p].pos.wf()
        &&& forall|k: int|
            0 <= k < self.workers@.len() ==> (#[trigger] self.workers@[k]).wf()
                && self.workers@[k].id < self.next_id
        &&& worker_ids_distinct_s(self.workers@)
        &&& house_member_link_s(self.houses@, self.workers@)
        &&& single_claim_s(self.workers@)
    }

    /// A fresh session: everything empty, the clock at hour 0 AM.
    pub fn new() -> (s: Sim)
        ensures
            s.wf(),
            s.next_id == 1,
            s.building_coords.data@.len() == 0,
            s.building_tuple.data@.len() == 0,
            s.coins_spawned.positions@.len() == 0,
            s.inventory.items@.len() == 0,
            s.ui_slots@.len() == 0,
            s.selected == ItemSelected::cleared_s(),
            s.pickups@.len() == 0,
            s.houses@.len() == 0,
            s.plots@.len() == 0,
            s.workers@.len() == 0,
            s.clock == WorldSettings::start_s(HOUR_MS),
            s.worker_amount.total == 0,
    {
        Sim {
            next_id: 1,
            building_coords: BuildingCoords::new(),
            building_tuple: BuildingTuple::new(),
            coins_spawned: CoinsSpawned::new(),
            inventory: PlayerInventory::new(),
            ui_slots: Vec::new(),
            selected: ItemSelected::new(),
            pickups: Vec::new(),
            houses: Vec::new(),
            plots: Vec::new(),
            workers: Vec::new(),
            clock: WorldSettings::new(HOUR_MS),
            worker_amount: WorkerAmount { total: 0 },
        }
    }

    /// Create `count` empty UI slots with fresh handles, as the UI does at
    /// session start.
    pub fn init_ui(&mut self, count: usize)
        requires
            old(self).wf(),
            count <= 1000,
            old(self).next_id + count <= u64::MAX,
        ensures
            final(self).wf(),
            final(self).ui_slots@.len() == old(self).ui_slots@.len() + count,
            forall|k: int|
                0 <= k < old(self).ui_slots@.len() ==> final(self).ui_slots@[k] == old(
                    self,
                ).ui_slots@[k],
            forall|k: int|
                old(self).ui_slots@.len() <= k < final(self).ui_slots@.len() ==> {
                    let sl = #[trigger] final(self).ui_slots@[k];
                    sl.item == ItemType::Nothing && sl.amount == 0 && !sl.assigned
                },
            final(self).inventory == old(self).inventory,
            final(self).workers@ == old(self).workers@,
            final(self).houses@ == old(self).houses@,
            final(self).next_id == old(self).next_id + count,
            *final(self) == (Sim {
                ui_slots: final(self).ui_slots,
                next_id: final(self).next_id,
                ..*old(self)
            }),
    {
        let mut made: usize = 0;
        while made < count
            invariant
                made <= count,
                count <= 1000,
                old(self).next_id + count <= u64::MAX,
                self.next_id == old(self).next_id + made,
                self.ui_slots@.len() == old(self).ui_slots@.len() + made,
                forall|k: int|
                    0 <= k < old(self).ui_slots@.len() ==> self.ui_slots@[k] == old(
                        self,
                    ).ui_slots@[k],
                forall|k: int|
                    old(self).ui_slots@.len() <= k < self.ui_slots@.len() ==> {
                        let sl = #[trigger] self.ui_slots@[k];
                        sl.item == ItemType::Nothing && sl.amount == 0 && !sl.assigned
                    },
                self.building_coords == old(self).building_coords,
                self.building_tuple == old(self).building_tuple,
                self.coins_spawned == old(self).coins_spawned,
                self.inventory == old(self).inventory,
                self.selected == old(self).selected,
                self.pickups == old(self).pickups,
                self.houses == old(self).houses,
                self.plots == old(self).plots,
                self.workers == old(self).workers,
                self.clock == old(self).clock,
                self.worker_amount == old(self).worker_amount,
                old(self).wf(),
                forall|k: int|
                    0 <= k < self.workers@.len() ==> (#[trigger] self.workers@[k]).id
                        < self.next_id,
            decreases count - made,
        {
            let id: u64 = self.next_id;
            self.next_id = id + 1;
            self.ui_slots.push(
                UiSlot { id, item: ItemType::Nothing, amount: 0, assigned: false },
            );
            made = made + 1;
        }
    }

    /// The town's housing counter: how many workers current houses allow.
    pub fn worker_amount_update(&mut self)
        requires
            old(self).wf(),
        ensures
            final(self).wf(),
            *final(self) == (Sim {
                worker_amount: WorkerAmount { total: final(self).worker_amount.total },
                ..*old(self)
            }),
            old(self).houses@.len() <= i32::MAX ==> final(self).worker_amount.total == old(
                self,
            ).houses@.len() * WORKERS_PER_HOUSE,
            old(self).houses@.len() > i32::MAX ==> final(self).worker_amount.total == i32::MAX,
    {
        let n: usize = self.houses.len();
        if n <= (i32::MAX as usize) {
            self.worker_amount.total = (n as i32) * WORKERS_PER_HOUSE;
        } else {
            self.worker_amount.total = i32::MAX;
        }
    }

    /// A session reset: despawn every worker and every house.  Everything
    /// else — registries, inventory, plots, pickups, the clock — stays.
    pub fn clean_scene(&mut self)
        requires
            old(self).wf(),
        ensures
            final(self).wf(),
            final(self).workers@.len() == 0,
            final(self).houses@.len() == 0,
            *final(self) == (Sim {
                workers: final(self).workers,
                houses: final(self).houses,
                ..*old(self)
            }),
    {
        self.workers.clear();
        self.houses.clear();
    }

    /// The dynamic-menu action that fixes a plot's crop kind: mark the
    /// plot, found by its identity, as having its crop selected.
    pub fn select_crop_kind(&mut self, plot_id: u64)
        requires
            old(self).wf(),
        ensures
            final(self).wf(),
            *final(self) == (Sim { plots: final(self).plots, ..*old(self) }),
            final(self).plots@.len() == old(self).plots@.len(),
            (forall|j: int|
                0 <= j < old(self).plots@.len() ==> (#[trigger] old(self).plots@[j]).id
                    != plot_id) ==> final(self).plots@ == old(self).plots@,
            (exists|j: int|
                0 <= j < old(self).plots@.len() && (#[trigger] old(self).plots@[j]).id == plot_id)
                ==> (exists|j: int|
                {
                    &&& 0 <= j < old(self).plots@.len()
                    &&& old(self).plots@[j].id == plot_id
                    &&& forall|jj: int|
                        0 <= jj < j ==> (#[trigger] old(self).plots@[jj]).id != plot_id
                    &&& final(self).plots@ == old(self).plots@.update(
                        j,
                        DirtPlot {
                            data: PreparedDirtData {
                                crop_type_selected: true,
                                ..old(self).plots@[j].data
                            },
                            ..old(self).plots@[j]
                        },
                    )
                }),
    {
        let n: usize = self.plots.len();
        let mut j: usize = 0;
        while j < n
            invariant
                n == self.plots@.len(),
                j <= n,
                *self == *old(self),
                old(self).wf(),
                forall|jj: int| 0 <= jj < j ==> (#[trigger] self.plots@[jj]).id != plot_id,
            decreases n - j,
        {
            if self.plots[j].id == plot_id {
                let pm = &mut self.plots[j];
                pm.data.crop_type_selected = true;
                return ;
            }
            j = j + 1;
        }
    }

    /// The dynamic-menu lookup for a click at `tile` while nothing is
    /// selected: the item kind built there and how many menu buttons it
    /// offers — two for a dirt plot, none for anything else.  A click with
    /// an item selected, or on an empty tile, opens no menu.
    pub fn dyn_ui_selection(&self, tile: Tile) -> (r: Option<(ItemType, i32)>)
        requires
            self.wf(),
        ensures
            self.selected.selected != ItemType::Nothing ==> r is None,
            !self.building_tuple.contains_tile_s(tile) ==> r is None,
            (self.selected.selected == ItemType::Nothing && self.building_tuple.contains_tile_s(
                tile,
            )) ==> r is Some,
            r is Some ==> ({
                &&& self.selected.selected == ItemType::Nothing
                &&& exists|i: int|
                    0 <= i < self.building_tuple.data@.len() && (
                    #[trigger] self.building_tuple.data@[i]).tile == tile && ((
                    self.building_tuple.data@[i].kind == ItemType::Dirt && r == Some(
                        (ItemType::Dirt, 2i32),
                    )) || (self.building_tuple.data@[i].kind != ItemType::Dirt && r == Some(
                        (ItemType::Nothing, 0i32),
                    )))
            }),
    {
        let is_nothing: bool = matches!(self.selected.selected, ItemType::Nothing);
        if !is_nothing {
            return None;
        }
        match self.building_tuple.kind_at(tile) {
            Some(kind) => {
                let is_dirt: bool = matches!(kind, ItemType::Dirt);
                if is_dirt {
                    Some((ItemType::Dirt, 2))
                } else {
                    Some((ItemType::Nothing, 0))
                }
            },
            None => None,
        }
    }

    /// The identity of the plot standing at `tile`, if any: how the menu
    /// finds the entity a click addressed.
    pub fn plot_at(&self, tile: Tile) -> (r: Option<u64>)
        ensures
            match r {
                Some(id) => exists|j: int|
                    0 <= j < self.plots@.len() && (#[trigger] self.plots@[j]).pos
                        == Pos::of_tile_s(tile) && self.plots@[j].id == id,
                None => forall|j: int|
                    0 <= j < self.plots@.len() ==> (#[trigger] self.plots@[j]).pos
                        != Pos::of_tile_s(tile),
            },
    {
        let p: Pos = Pos::of_tile(tile);
        let n: usize = self.plots.len();
        let mut j: usize = 0;
        while j < n
            invariant
                n == self.plots@.len(),
                j <= n,
                forall|jj: int|
                    0 <= jj < j ==> (#[trigger] self.plots@[jj]).pos != Pos::of_tile_s(tile),
                p == Pos::of_tile_s(tile),
            decreases n - j,
        {
            if self.plots[j].pos.x == p.x && self.plots[j].pos.y == p.y {
                return Some(self.plots[j].id);
            }
            j = j + 1;
        }
        None
    }
}

impl Sim {
    /// Spawn one currency pickup at a tile and track its drop position; at
    /// most one pickup per tile is ever tracked.  Pickups occupy no tile.
    pub fn drop_coin_at(&mut self, tile: Tile)
        requires
            old(self).wf(),
            old(self).next_id < u64::MAX,
        ensures
            final(self).wf(),
            final(self).pickups@ == old(self).pickups@.push(
                CoinPickup {
                    id: old(self).next_id,
                    pos: Pos::of_tile_s(tile),
                    tile,
                    despawned: false,
                },
            ),
            final(self).next_id == old(self).next_id + 1,
            forall|x: Tile|
                final(self).coins_spawned.positions@.contains(x) <==> (old(
                    self,
                ).coins_spawned.positions@.contains(x) || x == tile),
            *final(self) == (Sim {
                pickups: final(self).pickups,
                coins_spawned: final(self).coins_spawned,
                next_id: final(self).next_id,
                ..*old(self)
            }),
    {
        let id: u64 = self.next_id;
        self.next_id = id + 1;
        let pos: Pos = Pos::of_tile(tile);
        self.pickups.push(CoinPickup { id, pos, tile, despawned: false });
        self.coins_spawned.insert(tile);
    }

    /// Spawn one worker agent at a tile.  Agents occupy no tile.
    pub fn spawn_worker_at(&mut self, tile: Tile)
        requires
            old(self).wf(),
            old(self).next_id < u64::MAX,
        ensures
            final(self).wf(),
            final(self).workers@ == old(self).workers@.push(
                Worker::fresh_s(old(self).next_id, Pos::of_tile_s(tile)),
            ),
            final(self).next_id == old(self).next_id + 1,
            *final(self) == (Sim {
                workers: final(self).workers,
                next_id: final(self).next_id,
                ..*old(self)
            }),
    {
        let id: u64 = self.next_id;
        self.next_id = id + 1;
        let pos: Pos = Pos::of_tile(tile);
        let w: Worker = Worker::fresh(id, pos);
        self.workers.push(w);
        proof {
            let ws0 = old(self).workers@;
            let ws1 = self.workers@;
            assert(forall|k: int| 0 <= k < ws0.len() ==> ws1[k] == ws0[k]);
            assert(house_member_link_s(self.houses@, ws1)) by {
                assert forall|hi: int, mi: int|
                    0 <= hi < self.houses@.len() && 0 <= mi
                        < self.houses@[hi].data.assigned_workers@.len() implies
                    #[trigger] member_backed_s(self.houses@, ws1, hi, mi) by {
                    assert(member_backed_s(old(self).houses@, ws0, hi, mi));
                    let wi = choose|wi: int|
                        0 <= wi < ws0.len() && (#[trigger] ws0[wi]).id
                            == old(self).houses@[hi].data.assigned_workers@[mi]
                            && ws0[wi].data.house_assigned;
                    assert(ws1[wi] == ws0[wi]);
                }
            }
        }
    }

    /// Build a house on a free tile: the entity spawns with empty
    /// assignments and capacity `HOUSE_CAPACITY`, and the tile is registered
    /// in both occupancy registries.
    pub fn build_house_at(&mut self, tile: Tile)
        requires
            old(self).wf(),
            old(self).next_id < u64::MAX,
            !old(self).building_coords.data@.contains(tile),
        ensures
            final(self).wf(),
            final(self).houses@.len() == old(self).houses@.len() + 1,
            forall|h: int|
                0 <= h < old(self).houses@.len() ==> final(self).houses@[h] == old(
                    self,
                ).houses@[h],
            ({
                let h = final(self).houses@.last();
                &&& h.id == old(self).next_id
                &&& h.tile == tile
                &&& h.pos == Pos::of_tile_s(tile)
                &&& h.data.building_type == BuildingType::House
                &&& h.data.assigned_workers@.len() == 0
                &&& h.data.max_capacity == HOUSE_CAPACITY
            }),
            final(self).building_coords.data@ == old(self).building_coords.data@.push(tile),
            final(self).building_tuple.data@ == old(self).building_tuple.data@.push(
                crate::buildings::BuildingEntry { tile, kind: ItemType::House },
            ),
            final(self).next_id == old(self).next_id + 1,
            *final(self) == (Sim {
                houses: final(self).houses,
                building_coords: final(self).building_coords,
                building_tuple: final(self).building_tuple,
                next_id: final(self).next_id,
                ..*old(self)
            }),
    {
        let id: u64 = self.next_id;
        self.next_id = id + 1;
        let pos: Pos = Pos::of_tile(tile);
        proof {
            assert(!old(self).building_tuple.contains_tile_s(tile));
        }
        self.building_coords.insert(tile);
        self.building_tuple.insert(tile, ItemType::House);
        self.houses.push(
            House {
                id,
                tile,
                pos,
                data: HouseData {
                    building_type: BuildingType::House,
                    assigned_workers: Vec::new(),
                    max_capacity: HOUSE_CAPACITY,
                },
            },
        );
        proof {
            self.lemma_sync_after_insert(*old(self), tile);
            let hs1 = self.houses@;
            let hs0 = old(self).houses@;
            assert(house_member_link_s(hs1, self.workers@)) by {
                assert forall|hi: int, mi: int|
                    0 <= hi < hs1.len() && 0 <= mi
                        < hs1[hi].data.assigned_workers@.len() implies #[trigger] member_backed_s(
                    hs1,
                    self.workers@,
                    hi,
                    mi,
                ) by {
                    assert(hi < hs0.len());
                    assert(member_backed_s(hs0, self.workers@, hi, mi));
                    let wi = choose|wi: int|
                        0 <= wi < self.workers@.len() && (#[trigger] self.workers@[wi]).id
                            == hs0[hi].data.assigned_workers@[mi]
                            && self.workers@[wi].data.house_assigned;
                    assert(hs1[hi] == hs0[hi]);
                }
            }
        }
    }

    /// Place a prepared-dirt plot on a free tile: the plot spawns idle and
    /// unclaimed, and the tile is registered in both occupancy registries.
    pub fn prepare_dirt_at(&mut self, tile: Tile)
        requires
            old(self).wf(),
            old(self).next_id < u64::MAX,
            !old(self).building_coords.data@.contains(tile),
        ensures
            final(self).wf(),
            final(self).plots@ == old(self).plots@.push(
                DirtPlot {
                    id: old(self).next_id,
                    pos: Pos::of_tile_s(tile),
                    data: PreparedDirtData::fresh_s(),
                },
            ),
            final(self).building_coords.data@ == old(self).building_coords.data@.push(tile),
            final(self).building_tuple.data@ == old(self).building_tuple.data@.push(
                crate::buildings::BuildingEntry { tile, kind: ItemType::Dirt },
            ),
            final(self).next_id == old(self).next_id + 1,
            *final(self) == (Sim {
                plots: final(self).plots,
                building_coords: final(self).building_coords,
                building_tuple: final(self).building_tuple,
                next_id: final(self).next_id,
                ..*old(self)
            }),
    {
        let id: u64 = self.next_id;
        self.next_id = id + 1;
        let pos: Pos = Pos::of_tile(tile);
        proof {
            assert(!old(self).building_tuple.contains_tile_s(tile));
        }
        self.building_coords.insert(tile);
        self.building_tuple.insert(tile, ItemType::Dirt);
        self.plots.push(DirtPlot { id, pos, data: PreparedDirtData::fresh() });
        proof {
            self.lemma_sync_after_insert(*old(self), tile);
        }
    }

    /// After pushing `tile` onto both registries the two stay in sync.
    proof fn lemma_sync_after_insert(self, pre: Sim, tile: Tile)
        requires
            pre.registries_in_sync_s(),
            self.building_coords.data@ == pre.building_coords.data@.push(tile),
            self.building_tuple.data@.len() == pre.building_tuple.data@.len() + 1,
            forall|i: int|
                0 <= i < pre.building_tuple.data@.len() ==> self.building_tuple.data@[i] == pre.building_tuple.data@[i],
            self.building_tuple.data@.last().tile == tile,
        ensures
            self.registries_in_sync_s(),
    {
        let c0 = pre.building_coords.data@;
        let c1 = self.building_coords.data@;
        let t0 = pre.building_tuple.data@;
        let t1 = self.building_tuple.data@;
        assert forall|t: Tile| #[trigger]
            c1.contains(t) implies self.building_tuple.contains_tile_s(t) by {
            let j = choose|j: int| 0 <= j < c1.len() && c1[j] == t;
            if j < c0.len() {
                assert(c0[j] == t);
                assert(c0.contains(t));
                assert(pre.building_tuple.contains_tile_s(t));
                let i = choose|i: int| 0 <= i < t0.len() && (#[trigger] t0[i]).tile == t;
                assert(t1[i].tile == t);
            } else {
                assert(t == tile);
                assert(t1[t1.len() - 1].tile == t);
            }
        }
        assert forall|t: Tile|
            self.building_tuple.contains_tile_s(t) implies #[trigger] c1.contains(t) by {
            let i = choose|i: int| 0 <= i < t1.len() && (#[trigger] t1[i]).tile == t;
            if i < t0.len() {
                assert(t0[i].tile == t);
                assert(pre.building_tuple.contains_tile_s(t));
                assert(c0.contains(t));
                let j = choose|j: int| 0 <= j < c0.len() && c0[j] == t;
                assert(c1[j] == t);
            } else {
                assert(t == tile);
                assert(c1[c1.len() - 1] == t);
            }
        }
    }
}

/// A stack that placement may draw from: it holds a real item with at least
/// one unit and is bound to the selected UI slot.
pub open spec fn stack_matches_s(s: ItemStack, sel_ui: u64) -> bool {
    &&& s.item != ItemType::Nothing
    &&& s.total_amount >= 1
    &&& s.ui_entity == sel_ui
}

/// A UI slot that placement may decrement: the selected slot, with at least
/// one unit displayed.
pub open spec fn slot_matches_s(sl: UiSlot, sel_ui: u64) -> bool {
    &&& sl.id == sel_ui
    &&& sl.amount >= 1
}

/// The item kinds a click can place into the world.
pub open spec fn placeable_s(k: ItemType) -> bool {
    ||| k == ItemType::Coin
    ||| k == ItemType::House
    ||| k == ItemType::Dirt
    ||| k == ItemType::Worker
}

/// Only persistent buildings consume and check tile occupancy; pickups and
/// mobile agents neither check nor occupy a tile.
pub open spec fn occupies_tile_s(k: ItemType) -> bool {
    ||| k == ItemType::House
    ||| k == ItemType::Dirt
}

impl Sim {
    /// Every condition an accepted placement needs: the pointer is off any
    /// blocking UI region, a placeable kind is selected, the tile is free
    /// where the kind occupies one, the bound stack has stock, and the
    /// selected UI slot still shows at least one unit.
    pub open spec fn can_spawn_s(self, tile: Tile, can_place: bool) -> bool {
        &&& can_place
        &&& placeable_s(self.selected.selected)
        &&& (occupies_tile_s(self.selected.selected) ==> !self.building_coords.data@.contains(
            tile,
        ))
        &&& (exists|i: int|
            0 <= i < self.inventory.items@.len() && stack_matches_s(
                #[trigger] self.inventory.items@[i],
                self.selected.ui_entity,
            ))
        &&& (exists|k: int|
            0 <= k < self.ui_slots@.len() && slot_matches_s(
                #[trigger] self.ui_slots@[k],
                self.selected.ui_entity,
            ))
        &&& self.next_id < u64::MAX
    }

    /// Placement: one accepted primary-click edge spawns exactly one entity
    /// of the selected kind at `tile`, registers the tile where the kind
    /// occupies one, and decrements the bound stack and its UI slot by one
    /// unit each, atomically.  A request that fails any check mutates
    /// nothing at all.
    pub fn spawn_items(&mut self, tile: Tile, can_place: bool) -> (placed: bool)
        requires
            old(self).wf(),
        ensures
            final(self).wf(),
            placed == old(self).can_spawn_s(tile, can_place),
            !placed ==> *final(self) == *old(self),
            placed ==> ({
                let sel = old(self).selected.selected;
                let sel_ui = old(self).selected.ui_entity;
                &&& final(self).selected == old(self).selected
                &&& final(self).clock == old(self).clock
                &&& final(self).worker_amount == old(self).worker_amount
                &&& final(self).inventory.size == old(self).inventory.size
                &&& final(self).next_id == old(self).next_id + 1
                &&& (exists|i: int|
                    {
                        &&& 0 <= i < old(self).inventory.items@.len()
                        &&& stack_matches_s(#[trigger] old(self).inventory.items@[i], sel_ui)
                        &&& forall|j: int|
                            0 <= j < i ==> !stack_matches_s(
                                #[trigger] old(self).inventory.items@[j],
                                sel_ui,
                            )
                        &&& final(self).inventory.items@ == old(self).inventory.items@.update(
                            i,
                            ItemStack {
                                total_amount: (old(self).inventory.items@[i].total_amount
                                    - 1) as i32,
                                ..old(self).inventory.items@[i]
                            },
                        )
                    })
                &&& (exists|k: int|
                    {
                        &&& 0 <= k < old(self).ui_slots@.len()
                        &&& slot_matches_s(#[trigger] old(self).ui_slots@[k], sel_ui)
                        &&& forall|j: int|
                            0 <= j < k ==> !slot_matches_s(#[trigger] old(self).ui_slots@[j], sel_ui)
                        &&& final(self).ui_slots@ == old(self).ui_slots@.update(
                            k,
                            UiSlot {
                                amount: (old(self).ui_slots@[k].amount - 1) as i32,
                                ..old(self).ui_slots@[k]
                            },
                        )
                    })
                &&& (sel == ItemType::Coin ==> ({
                    &&& final(self).pickups@ == old(self).pickups@.push(
                        CoinPickup {
                            id: old(self).next_id,
                            pos: Pos::of_tile_s(tile),
                            tile,
                            despawned: false,
                        },
                    )
                    &&& (forall|x: Tile|
                        final(self).coins_spawned.positions@.contains(x) <==> (old(
                            self,
                        ).coins_spawned.positions@.contains(x) || x == tile))
                    &&& final(self).houses@ == old(self).houses@
                    &&& final(self).plots@ == old(self).plots@
                    &&& final(self).workers@ == old(self).workers@
                    &&& final(self).building_coords == old(self).building_coords
                    &&& final(self).building_tuple == old(self).building_tuple
                }))
                &&& (sel == ItemType::Worker ==> ({
                    &&& final(self).workers@ == old(self).workers@.push(
                        Worker::fresh_s(old(self).next_id, Pos::of_tile_s(tile)),
                    )
                    &&& final(self).pickups@ == old(self).pickups@
                    &&& final(self).houses@ == old(self).houses@
                    &&& final(self).plots@ == old(self).plots@
                    &&& final(self).coins_spawned == old(self).coins_spawned
                    &&& final(self).building_coords == old(self).building_coords
                    &&& final(self).building_tuple == old(self).building_tuple
                }))
                &&& (sel == ItemType::House ==> ({
                    &&& final(self).houses@.len() == old(self).houses@.len() + 1
                    &&& (forall|h: int|
                        0 <= h < old(self).houses@.len() ==> final(self).houses@[h] == old(
                            self,
                        ).houses@[h])
                    &&& ({
                        let h = final(self).houses@.last();
                        &&& h.id == old(self).next_id
                        &&& h.tile == tile
                        &&& h.pos == Pos::of_tile_s(tile)
                        &&& h.data.building_type == BuildingType::House
                        &&& h.data.assigned_workers@.len() == 0
                        &&& h.data.max_capacity == HOUSE_CAPACITY
                    })
                    &&& final(self).building_coords.data@ == old(
                        self,
                    ).building_coords.data@.push(tile)
                    &&& final(self).building_tuple.data@ == old(self).building_tuple.data@.push(
                        crate::buildings::BuildingEntry { tile, kind: ItemType::House },
                    )
                    &&& final(self).pickups@ == old(self).pickups@
                    &&& final(self).plots@ == old(self).plots@
                    &&& final(self).workers@ == old(self).workers@
                    &&& final(self).coins_spawned == old(self).coins_spawned
                }))
                &&& (sel == ItemType::Dirt ==> ({
                    &&& final(self).plots@ == old(self).plots@.push(
                        DirtPlot {
                            id: old(self).next_id,
                            pos: Pos::of_tile_s(tile),
                            data: PreparedDirtData::fresh_s(),
                        },
                    )
                    &&& final(self).building_coords.data@ == old(
                        self,
                    ).building_coords.data@.push(tile)
                    &&& final(self).building_tuple.data@ == old(self).building_tuple.data@.push(
                        crate::buildings::BuildingEntry { tile, kind: ItemType::Dirt },
                    )
                    &&& final(self).pickups@ == old(self).pickups@
                    &&& final(self).houses@ == old(self).houses@
                    &&& final(self).workers@ == old(self).workers@
                    &&& final(self).coins_spawned == old(self).coins_spawned
                }))
            }),
    {
        if !can_place {
            return false;
        }
        let sel: ItemType = self.selected.selected;
        let placeable: bool = matches!(
            sel,
            ItemType::Coin | ItemType::House | ItemType::Dirt | ItemType::Worker
        );
        if !placeable {
            return false;
        }
        let occupies: bool = matches!(sel, ItemType::House | ItemType::Dirt);
        if occupies && self.building_coords.contains(tile) {
            return false;
        }
        let sel_ui: u64 = self.selected.ui_entity;
        let stacks: usize = self.inventory.items.len();
        let mut si: usize = 0;
        loop
            invariant
                stacks == self.inventory.items@.len(),
                si <= stacks,
                *self == *old(self),
                sel_ui == self.selected.ui_entity,
                forall|j: int|
                    0 <= j < si ==> !stack_matches_s(#[trigger] self.inventory.items@[j], sel_ui),
            ensures
                *self == *old(self),
                si <= stacks,
                si < stacks ==> stack_matches_s(self.inventory.items@[si as int], sel_ui),
                si < stacks ==> forall|j: int|
                    0 <= j < si ==> !stack_matches_s(#[trigger] self.inventory.items@[j], sel_ui),
                si == stacks ==> forall|j: int|
                    0 <= j < stacks ==> !stack_matches_s(
                        #[trigger] self.inventory.items@[j],
                        sel_ui,
                    ),
            decreases stacks - si,
        {
            if si >= stacks {
                break ;
            }
            let st = &self.inventory.items[si];
            let nonempty_kind: bool = !matches!(st.item, ItemType::Nothing);
            if nonempty_kind && st.total_amount >= 1 && st.ui_entity == sel_ui {
                break ;
            }
            si = si + 1;
        }
        if si >= stacks {
            return false;
        }
        let slots: usize = self.ui_slots.len();
        let mut ki: usize = 0;
        loop
            invariant
                slots == self.ui_slots@.len(),
                ki <= slots,
                *self == *old(self),
                sel_ui == self.selected.ui_entity,
                forall|j: int|
                    0 <= j < ki ==> !slot_matches_s(#[trigger] self.ui_slots@[j], sel_ui),
            ensures
                *self == *old(self),
                ki <= slots,
                ki < slots ==> slot_matches_s(self.ui_slots@[ki as int], sel_ui),
                ki < slots ==> forall|j: int|
                    0 <= j < ki ==> !slot_matches_s(#[trigger] self.ui_slots@[j], sel_ui),
                ki == slots ==> forall|j: int|
                    0 <= j < slots ==> !slot_matches_s(#[trigger] self.ui_slots@[j], sel_ui),
            decreases slots - ki,
        {
            if ki >= slots {
                break ;
            }
            let sl = &self.ui_slots[ki];
            if sl.id == sel_ui && sl.amount >= 1 {
                break ;
            }
            ki = ki + 1;
        }
        if ki >= slots {
            return false;
        }
        if self.next_id == u64::MAX {
            return false;
        }
        let st: ItemStack = self.inventory.items[si];
        self.inventory.items[si] = ItemStack { total_amount: st.total_amount - 1, ..st };
        let sl: UiSlot = self.ui_slots[ki];
        self.ui_slots[ki] = UiSlot { amount: sl.amount - 1, ..sl };
        match sel {
            ItemType::Coin => {
                self.drop_coin_at(tile);
            },
            ItemType::House => {
                self.build_house_at(tile);
            },
            ItemType::Dirt => {
                self.prepare_dirt_at(tile);
            },
            ItemType::Worker => {
                self.spawn_worker_at(tile);
            },
            _ => {},
        }
        true
    }
}

/// The agent with its recorded state transition committed.
pub open spec fn committed_worker_s(w: Worker) -> Worker {
    Worker { state: w.state_next, ..w }
}

/// The pickups that survive the end of a tick, in order: those not queued
/// for despawn.
pub open spec fn alive_pickups_s(ps: Seq<CoinPickup>) -> Seq<CoinPickup>
    decreases ps.len(),
{
    if ps.len() == 0 {
        Seq::empty()
    } else {
        let rest = alive_pickups_s(ps.drop_last());
        if ps.last().despawned {
            rest
        } else {
            rest.push(ps.last())
        }
    }
}

/// Everything the surviving sequence holds came from the full one.
pub proof fn lemma_alive_pickups_sub(ps: Seq<CoinPickup>)
    ensures
        forall|i: int|
            0 <= i < alive_pickups_s(ps).len() ==> ps.contains(#[trigger] alive_pickups_s(ps)[i]),
        alive_pickups_s(ps).len() <= ps.len(),
    decreases ps.len(),
{
    if ps.len() > 0 {
        lemma_alive_pickups_sub(ps.drop_last());
        assert forall|i: int|
            0 <= i < alive_pickups_s(ps).len() implies ps.contains(
            #[trigger] alive_pickups_s(ps)[i],
        ) by {
            let rest = alive_pickups_s(ps.drop_last());
            if i < rest.len() {
                assert(ps.drop_last().contains(rest[i]));
                let j = choose|j: int| 0 <= j < ps.drop_last().len() && ps.drop_last()[j] == rest[i];
                assert(ps[j] == rest[i]);
            } else {
                assert(alive_pickups_s(ps)[i] == ps.last());
            }
        }
    }
}

impl Sim {
    /// The end of a tick: recorded state transitions take effect and
    /// pickups queued for despawn disappear, so the next tick's stages see
    /// the new states.
    pub fn apply_deferred(&mut self)
        requires
            old(self).wf(),
        ensures
            final(self).wf(),
            final(self).workers@.len() == old(self).workers@.len(),
            forall|k: int|
                0 <= k < old(self).workers@.len() ==> final(self).workers@[k]
                    == committed_worker_s(#[trigger] old(self).workers@[k]),
            final(self).pickups@ == alive_pickups_s(old(self).pickups@),
            *final(self) == (Sim {
                workers: final(self).workers,
                pickups: final(self).pickups,
                ..*old(self)
            }),
    {
        let n: usize = self.workers.len();
        let mut i: usize = 0;
        while i < n
            invariant
                n == self.workers@.len(),
                self.workers@.len() == old(self).workers@.len(),
                i <= n,
                *self == (Sim { workers: self.workers, ..*old(self) }),
                forall|k: int| i <= k < n ==> self.workers@[k] == old(self).workers@[k],
                forall|k: int|
                    0 <= k < i ==> self.workers@[k] == committed_worker_s(
                        #[trigger] old(self).workers@[k],
                    ),
            decreases n - i,
        {
            let st: WorkerState = self.workers[i].state_next;
            let mut wnew: Worker = self.workers[i];
            wnew.state = st;
            self.workers[i] = wnew;
            i = i + 1;
        }
        let ghost ps0 = self.pickups@;
        let m: usize = self.pickups.len();
        let mut kept: Vec<CoinPickup> = Vec::new();
        let mut j: usize = 0;
        while j < m
            invariant
                m == self.pickups@.len(),
                self.pickups@ == ps0,
                j <= m,
                kept@ == alive_pickups_s(ps0.subrange(0, j as int)),
            decreases m - j,
        {
            let p: CoinPickup = self.pickups[j];
            if !p.despawned {
                kept.push(p);
            }
            proof {
                assert(ps0.subrange(0, j + 1).drop_last() =~= ps0.subrange(0, j as int));
                assert(ps0.subrange(0, j + 1).last() == ps0[j as int]);
            }
            j = j + 1;
        }
        proof {
            assert(ps0.subrange(0, m as int) =~= ps0);
        }
        self.pickups = kept;
        proof {
            lemma_alive_pickups_sub(ps0);
            assert forall|jj: int|
                0 <= jj < self.pickups@.len() implies (#[trigger] self.pickups@[jj]).pos.wf() by {
                assert(ps0.contains(self.pickups@[jj]));
                let x = choose|x: int| 0 <= x < ps0.len() && ps0[x] == self.pickups@[jj];
                assert(old(self).pickups@[x].pos.wf());
            }
            let ws0 = old(self).workers@;
            let ws1 = self.workers@;
            assert forall|k: int| 0 <= k < ws1.len() implies (#[trigger] ws1[k]).wf()
                && ws1[k].id < self.next_id by {
                assert(ws1[k] == committed_worker_s(ws0[k]));
                assert(ws0[k].wf());
            }
            assert(worker_ids_distinct_s(ws1)) by {
                assert forall|k1: int, k2: int|
                    0 <= k1 < ws1.len() && 0 <= k2 < ws1.len() && k1 != k2 implies (
                #[trigger] ws1[k1]).id != (#[trigger] ws1[k2]).id by {
                    assert(ws0[k1].id != ws0[k2].id);
                }
            }
            assert(single_claim_s(ws1)) by {
                assert forall|k1: int, k2: int|
                    0 <= k1 < ws1.len() && 0 <= k2 < ws1.len() && k1 != k2 && (
                #[trigger] ws1[k1]).data.target_coin_entity is Some && (
                #[trigger] ws1[k2]).data.target_coin_entity is Some implies
                    ws1[k1].data.target_coin_entity != ws1[k2].data.target_coin_entity by {
                    assert(ws1[k1].data == ws0[k1].data && ws1[k2].data == ws0[k2].data);
                }
            }
            assert(house_member_link_s(self.houses@, ws1)) by {
                assert forall|hi: int, mi: int|
                    0 <= hi < self.houses@.len() && 0 <= mi
                        < self.houses@[hi].data.assigned_workers@.len() implies
                    #[trigger] member_backed_s(self.houses@, ws1, hi, mi) by {
                    assert(member_backed_s(self.houses@, ws0, hi, mi));
                    let wi = choose|wi: int|
                        0 <= wi < ws0.len() && (#[trigger] ws0[wi]).id
                            == self.houses@[hi].data.assigned_workers@[mi]
                            && ws0[wi].data.house_assigned;
                    assert(ws1[wi] == committed_worker_s(ws0[wi]));
                }
            }
        }
    }

    /// One simulation tick: the housing counter and the clock advance,
    /// active crops grow, and the worker stages run in their fixed order —
    /// foraging, then housing, then crop tending — before deferred
    /// transitions and despawns take effect.  Placement is not part of the
    /// tick; the caller applies click events between ticks.
    #[verifier::rlimit(80)]
    pub fn tick(&mut self, dt: u64)
        requires
            old(self).wf(),
            dt <= MAX_TICK_MS,
        ensures
            final(self).wf(),
            final(self).clock == old(self).clock.tick_s(dt as int),
            final(self).inventory == old(self).inventory,
            final(self).ui_slots@ == old(self).ui_slots@,
            final(self).selected == old(self).selected,
            final(self).building_coords == old(self).building_coords,
            final(self).building_tuple == old(self).building_tuple,
            final(self).next_id == old(self).next_id,
            final(self).workers@.len() == old(self).workers@.len(),
            final(self).houses@.len() == old(self).houses@.len(),
            final(self).plots@.len() == old(self).plots@.len(),
            old(self).houses@.len() <= i32::MAX ==> final(self).worker_amount.total == old(
                self,
            ).houses@.len() * WORKERS_PER_HOUSE,
            forall|p: int|
                0 <= p < old(self).plots@.len() ==> (#[trigger] final(self).plots@[p]).id == old(
                    self,
                ).plots@[p].id && final(self).plots@[p].pos == old(self).plots@[p].pos,
            forall|p: int|
                0 <= p < old(self).plots@.len() ==> (#[trigger] final(self).plots@[p]).data.growth_state >= old(self).plots@[p].data.growth_state,
            forall|k: int|
                0 <= k < old(self).workers@.len() ==> (#[trigger] final(self).workers@[k]).id
                    == old(self).workers@[k].id && final(self).workers@[k].data.coins >= old(
                    self,
                ).workers@[k].data.coins,
            forall|x: Tile|
                final(self).coins_spawned.positions@.contains(x) ==> old(
                    self,
                ).coins_spawned.positions@.contains(x),
{
        self.worker_amount_update();
        self.clock.day_timer_tick(dt);
        crate::crop::crop_growth_manager(&mut self.plots, dt);
        let ghost plots_g = self.plots@;
        crate::worker::worker_collect_coin(
            &mut self.workers,
            &mut self.pickups,
            &mut self.coins_spawned,
            dt,
        );
        proof {
            lemma_ids_carry(old(self).workers@, self.workers@, old(self).next_id);
            lemma_link_carries(self.houses@, old(self).workers@, self.workers@);
        }
        let ghost ws_b = self.workers@;
        let ghost ps_b = self.pickups@;
        crate::worker::worker_assign_home(&mut self.houses, &mut self.workers);
        proof {
            lemma_ids_carry(ws_b, self.workers@, old(self).next_id);
        }
        let ghost ws_c = self.workers@;
        let ghost hs_c = self.houses@;
        crate::worker::worker_life_cycle(&mut self.plots, &mut self.workers, &self.clock, dt);
        proof {
            lemma_ids_carry(ws_c, self.workers@, old(self).next_id);
            lemma_link_carries(hs_c, ws_c, self.workers@);
            assert(self.wf());
            assert forall|p: int| 0 <= p < old(self).plots@.len() implies (
            #[trigger] self.plots@[p]).id == old(self).plots@[p].id && self.plots@[p].pos == old(
                self,
            ).plots@[p].pos && self.plots@[p].data.growth_state >= old(
                self,
            ).plots@[p].data.growth_state by {
                assert(crate::worker::tend_plot_frame_s(plots_g[p], self.plots@[p]));
                assert(plots_g[p].data == old(self).plots@[p].data.growth_tick_s(dt as int));
            }
        }
        self.apply_deferred();
    }
}

/// The house-membership link survives any change that keeps every worker's
/// identity and housing flag.
proof fn lemma_link_carries(hs: Seq<House>, ws0: Seq<Worker>, ws1: Seq<Worker>)
    requires
        house_member_link_s(hs, ws0),
        ws1.len() == ws0.len(),
        forall|k: int|
            0 <= k < ws0.len() ==> (#[trigger] ws1[k]).id == ws0[k].id
                && ws1[k].data.house_assigned == ws0[k].data.house_assigned,
    ensures
        house_member_link_s(hs, ws1),
{
    assert forall|hi: int, mi: int|
        0 <= hi < hs.len() && 0 <= mi < hs[hi].data.assigned_workers@.len() implies
        #[trigger] member_backed_s(hs, ws1, hi, mi) by {
        assert(member_backed_s(hs, ws0, hi, mi));
        let wi = choose|wi: int|
            0 <= wi < ws0.len() && (#[trigger] ws0[wi]).id == hs[hi].data.assigned_workers@[mi]
                && ws0[wi].data.house_assigned;
        assert(ws1[wi].id == ws0[wi].id && ws1[wi].data.house_assigned);
    }
}

/// Identity distinctness and freshness survive any change that keeps every
/// worker's identity.
proof fn lemma_ids_carry(ws0: Seq<Worker>, ws1: Seq<Worker>, bound: u64)
    requires
        worker_ids_distinct_s(ws0),
        forall|k: int| 0 <= k < ws0.len() ==> (#[trigger] ws0[k]).id < bound,
        ws1.len() == ws0.len(),
        forall|k: int| 0 <= k < ws0.len() ==> (#[trigger] ws1[k]).id == ws0[k].id,
    ensures
        worker_ids_distinct_s(ws1),
        forall|k: int| 0 <= k < ws1.len() ==> (#[trigger] ws1[k]).id < bound,
{
    assert forall|k1: int, k2: int|
        0 <= k1 < ws1.len() && 0 <= k2 < ws1.len() && k1 != k2 implies (#[trigger] ws1[k1]).id != (
    #[trigger] ws1[k2]).id by {
        assert(ws0[k1].id != ws0[k2].id);
    }
}

/// Occupancy uniqueness: in a well-formed simulation no tile appears twice
/// in either occupancy registry.
pub proof fn lemma_occupancy_unique(s: Sim)
    requires
        s.wf(),
    ensures
        s.building_coords.data@.no_duplicates(),
        forall|i: int, j: int|
            0 <= i < s.building_tuple.data@.len() && 0 <= j < s.building_tuple.data@.len() && i
                != j ==> (#[trigger] s.building_tuple.data@[i]).tile != (
            #[trigger] s.building_tuple.data@[j]).tile,
{
}

/// House capacity bound: in a well-formed simulation every house's
/// assigned-worker set is within its configured capacity.
pub proof fn lemma_house_capacity(s: Sim)
    requires
        s.wf(),
    ensures
        forall|h: int|
            0 <= h < s.houses@.len() ==> (#[trigger] s.houses@[h]).data.assigned_workers@.len()
                <= s.houses@[h].data.max_capacity,
{
    assert forall|h: int|
        0 <= h < s.houses@.len() implies (#[trigger] s.houses@[h]).data.assigned_workers@.len()
        <= s.houses@[h].data.max_capacity by {
        assert(s.houses@[h].data.wf());
    }
}

/// Worker single claim: in a well-formed simulation no two workers hold the
/// same target pickup.
pub proof fn lemma_worker_single_claim(s: Sim)
    requires
        s.wf(),
    ensures
        forall|k1: int, k2: int|
            0 <= k1 < s.workers@.len() && 0 <= k2 < s.workers@.len() && k1 != k2 && (
            #[trigger] s.workers@[k1]).data.target_coin_entity is Some && (
            #[trigger] s.workers@[k2]).data.target_coin_entity is Some ==> s.workers@[k1].data.target_coin_entity != s.workers@[k2].data.target_coin_entity,
{
}

} // verus!
