//! Buildings and the occupancy registry.
//!
//! The registry exists in two forms, kept in step by placement: a plain set
//! of occupied tiles, used where only "is something built here" matters, and
//! a set of (tile, item kind) entries, used where the kind at a tile is
//! needed.  A tile appears at most once in either; placement at an occupied
//! tile is rejected.  Entries are never deleted during a session.

use vstd::prelude::*;
use crate::geom::Tile;
use crate::geom::Pos;
use crate::player::ItemType;

verus! {

/// Workers one house can take in.
pub const HOUSE_CAPACITY: i32 = 2;

#[derive(Clone, Copy, PartialEq, Eq, Structural, Debug)]
pub enum BuildingType {
    Nothing,
    House,
    Dirt,
}

/// Per-house state: its kind tag, the workers assigned to live in it, and
/// the cap on how many it takes.
#[derive(Clone, PartialEq, Eq, Debug)]
pub struct HouseData {
    pub building_type: BuildingType,
    /// Identities of the workers assigned to this house.
    pub assigned_workers: Vec<u64>,
    pub max_capacity: i32,
}

impl HouseData {
    /// A worker is assigned at most once, and never beyond capacity.
    pub open spec fn wf(self) -> bool {
        &&& self.assigned_workers@.no_duplicates()
        &&& 0 <= self.max_capacity
        &&& self.assigned_workers@.len() <= self.max_capacity
    }

    /// The house can take one more worker.
    pub open spec fn has_room_s(self) -> bool {
        self.assigned_workers@.len() < self.max_capacity
    }

    pub fn has_room(&self) -> (r: bool)
        requires
            self.wf(),
        ensures
            r == self.has_room_s(),
    {
        (self.assigned_workers.len() as i32) < self.max_capacity
    }
}

/// A house entity: a stable identity, the tile it was built on, its world
/// position, and its house state.
#[derive(Clone, PartialEq, Eq, Debug)]
pub struct House {
    pub id: u64,
    pub tile: Tile,
    pub pos: Pos,
    pub data: HouseData,
}

/// The simplified occupancy registry: the set of occupied tiles.
#[derive(Clone, PartialEq, Eq, Debug)]
pub struct BuildingCoords {
    pub data: Vec<Tile>,
}

impl BuildingCoords {
    /// A tile is registered at most once.
    pub open spec fn wf(self) -> bool {
        self.data@.no_duplicates()
    }

    pub fn new() -> (c: BuildingCoords)
        ensures
            c.data@.len() == 0,
            c.wf(),
    {
        BuildingCoords { data: Vec::new() }
    }

    pub fn contains(&self, t: Tile) -> (r: bool)
        ensures
            r == self.data@.contains(t),
    {
        let n: usize = self.data.len();
        let mut i: usize = 0;
        while i < n
            invariant
                n == self.data@.len(),
                i <= n,
                forall|j: int| 0 <= j < i ==> self.data@[j] != t,
            decreases n - i,
        {
            if self.data[i].x == t.x && self.data[i].y == t.y {
                return true;
            }
            i = i + 1;
        }
        false
    }

    /// Register a tile that is not yet occupied.
    pub fn insert(&mut self, t: Tile)
        requires
            old(self).wf(),
            !old(self).data@.contains(t),
        ensures
            final(self).wf(),
            final(self).data@ == old(self).data@.push(t),
    {
        self.data.push(t);
    }
}

/// One entry of the kinded occupancy registry.
#[derive(Clone, Copy, PartialEq, Eq, Structural, Debug)]
pub struct BuildingEntry {
    pub tile: Tile,
    pub kind: ItemType,
}

/// The kinded occupancy registry: which item kind was placed on which tile.
#[derive(Clone, PartialEq, Eq, Debug)]
pub struct BuildingTuple {
    pub data: Vec<BuildingEntry>,
}

impl BuildingTuple {
    /// A tile carries at most one entry.
    pub open spec fn wf(self) -> bool {
        forall|i: int, j: int|
            0 <= i < self.data@.len() && 0 <= j < self.data@.len() && i != j ==> (
            #[trigger] self.data@[i]).tile != (#[trigger] self.data@[j]).tile
    }

    pub open spec fn contains_tile_s(self, t: Tile) -> bool {
        exists|i: int| 0 <= i < self.data@.len() && (#[trigger] self.data@[i]).tile == t
    }

    pub fn new() -> (c: BuildingTuple)
        ensures
            c.data@.len() == 0,
            c.wf(),
    {
        BuildingTuple { data: Vec::new() }
    }

    /// The kind of the building placed on `t`, if any.
    pub fn kind_at(&self, t: Tile) -> (r: Option<ItemType>)
        ensures
            match r {
                Some(k) => exists|i: int|
                    0 <= i < self.data@.len() && (#[trigger] self.data@[i]) == (BuildingEntry {
                        tile: t,
                        kind: k,
                    }),
                None => !self.contains_tile_s(t),
            },
    {
        let n: usize = self.data.len();
        let mut i: usize = 0;
        while i < n
            invariant
                n == self.data@.len(),
                i <= n,
                forall|j: int| 0 <= j < i ==> (#[trigger] self.data@[j]).tile != t,
            decreases n - i,
        {
            if self.data[i].tile.x == t.x && self.data[i].tile.y == t.y {
                return Some(self.data[i].kind);
            }
            i = i + 1;
        }
        None
    }

    /// Register the kind placed on a tile that carries no entry yet.
    pub fn insert(&mut self, t: Tile, kind: ItemType)
        requires
            old(self).wf(),
            !old(self).contains_tile_s(t),
        ensures
            final(self).wf(),
            final(self).data@ == old(self).data@.push(BuildingEntry { tile: t, kind }),
    {
        self.data.push(BuildingEntry { tile: t, kind });
        proof {
            assert forall|i: int, j: int|
                0 <= i < self.data@.len() && 0 <= j < self.data@.len() && i != j implies (
            #[trigger] self.data@[i]).tile != (#[trigger] self.data@[j]).tile by {
                let n = old(self).data@.len() as int;
                if i < n && j < n {
                    assert(self.data@[i] == old(self).data@[i]);
                    assert(self.data@[j] == old(self).data@[j]);
                } else if i == n {
                    assert(self.data@[j] == old(self).data@[j]);
                    assert(!(0 <= j < n && old(self).data@[j].tile == t));
                } else {
                    assert(self.data@[i] == old(self).data@[i]);
                    assert(!(0 <= i < n && old(self).data@[i].tile == t));
                }
            }
        }
    }
}

} // verus!
