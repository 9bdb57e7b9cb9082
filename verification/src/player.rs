//! The player's inventory: an ordered collection of item stacks, plus the
//! set of tiles on which currency pickups have been dropped.
//!
//! A stack holds a quantity of one item kind and is bound, once the UI has
//! picked it up, to a UI slot handle.  Quantities never go negative; a stack
//! whose quantity reaches zero is removed from the collection.

use vstd::prelude::*;
use crate::geom::Tile;

verus! {

/// Number of UI inventory slots.
pub const INVENTORYSIZE: i32 = 6;

/// Largest quantity one stack can hold.
pub const MAXSTACKSIZE: i32 = 999;

/// Hand tools the player can hold; none of them is placeable.
#[derive(Clone, Copy, PartialEq, Eq, Structural, Debug)]
pub enum Tool {
    Shovel,
}

/// Every kind of item a stack, a UI slot or a selection can carry.
#[derive(Clone, Copy, PartialEq, Eq, Structural, Debug)]
pub enum ItemType {
    Nothing,
    Coin,
    House,
    Shovel,
    Dirt,
    Worker,
}

/// A quantity of one item kind, bound to the UI slot that displays it.
/// `ui_entity` is 0 until the UI layer assigns the stack to a slot.
#[derive(Clone, Copy, PartialEq, Eq, Structural, Debug)]
pub struct ItemStack {
    pub item: ItemType,
    pub total_amount: i32,
    /// Largest quantity this stack may hold in one slot.
    pub max_amount: i32,
    /// Whether the UI has bound this stack to a slot.
    pub assigned: bool,
    /// Handle of the UI slot that displays this stack.
    pub ui_entity: u64,
}

/// A stack has run out and is due to be removed from the inventory.
pub open spec fn depleted_s(s: ItemStack) -> bool {
    s.total_amount <= 0
}

#[derive(Clone, PartialEq, Eq, Debug)]
pub struct PlayerInventory {
    pub items: Vec<ItemStack>,
    /// Number of UI slots the inventory may occupy.
    pub size: i32,
}

impl PlayerInventory {
    /// Quantities never go negative.
    pub open spec fn wf(self) -> bool {
        forall|i: int|
            0 <= i < self.items@.len() ==> (#[trigger] self.items@[i]).total_amount >= 0
    }

    pub fn new() -> (inv: PlayerInventory)
        ensures
            inv.items@.len() == 0,
            inv.size == INVENTORYSIZE,
            inv.wf(),
    {
        PlayerInventory { items: Vec::new(), size: INVENTORYSIZE }
    }

    /// The fixed starting loadout of a fresh session, in inventory order.
    pub open spec fn starting_loadout_s() -> Seq<ItemStack> {
        seq![
            ItemStack {
                item: ItemType::Coin,
                total_amount: 64,
                max_amount: MAXSTACKSIZE,
                assigned: false,
                ui_entity: 0,
            },
            ItemStack {
                item: ItemType::House,
                total_amount: 32,
                max_amount: MAXSTACKSIZE,
                assigned: false,
                ui_entity: 0,
            },
            ItemStack {
                item: ItemType::Dirt,
                total_amount: 16,
                max_amount: MAXSTACKSIZE,
                assigned: false,
                ui_entity: 0,
            },
            ItemStack {
                item: ItemType::Worker,
                total_amount: 999,
                max_amount: MAXSTACKSIZE,
                assigned: false,
                ui_entity: 0,
            },
        ]
    }

    /// Append the starting loadout to the inventory.
    pub fn init(&mut self)
        requires
            old(self).wf(),
        ensures
            final(self).items@ == old(self).items@ + PlayerInventory::starting_loadout_s(),
            final(self).size == old(self).size,
            final(self).wf(),
    {
        let ghost loadout = PlayerInventory::starting_loadout_s();
        self.items.push(
            ItemStack {
                item: ItemType::Coin,
                total_amount: 64,
                max_amount: MAXSTACKSIZE,
                assigned: false,
                ui_entity: 0,
            },
        );
        self.items.push(
            ItemStack {
                item: ItemType::House,
                total_amount: 32,
                max_amount: MAXSTACKSIZE,
                assigned: false,
                ui_entity: 0,
            },
        );
        self.items.push(
            ItemStack {
                item: ItemType::Dirt,
                total_amount: 16,
                max_amount: MAXSTACKSIZE,
                assigned: false,
                ui_entity: 0,
            },
        );
        self.items.push(
            ItemStack {
                item: ItemType::Worker,
                total_amount: 999,
                max_amount: MAXSTACKSIZE,
                assigned: false,
                ui_entity: 0,
            },
        );
        proof {
            assert(self.items@ =~= old(self).items@ + loadout);
        }
    }

    /// Drop the first stack whose quantity has reached zero, if any; the UI
    /// recycles the slot it was bound to separately.
    pub fn despawn_inventory_stack(&mut self)
        requires
            old(self).wf(),
        ensures
            final(self).size == old(self).size,
            final(self).wf(),
            (forall|i: int|
                0 <= i < old(self).items@.len() ==> !depleted_s(#[trigger] old(self).items@[i]))
                ==> *final(self) == *old(self),
            (exists|i: int|
                0 <= i < old(self).items@.len() && depleted_s(#[trigger] old(self).items@[i]))
                ==> (exists|i: int|
                {
                    &&& 0 <= i < old(self).items@.len()
                    &&& depleted_s(#[trigger] old(self).items@[i])
                    &&& forall|j: int| 0 <= j < i ==> !depleted_s(#[trigger] old(self).items@[j])
                    &&& final(self).items@ == old(self).items@.remove(i)
                }),
    {
        let n: usize = self.items.len();
        let mut i: usize = 0;
        while i < n
            invariant
                n == self.items@.len(),
                i <= n,
                *self == *old(self),
                old(self).wf(),
                forall|j: int| 0 <= j < i ==> !depleted_s(#[trigger] self.items@[j]),
            decreases n - i,
        {
            if self.items[i].total_amount <= 0 {
                let ghost pre = self.items@;
                let ghost k = i as int;
                self.items.remove(i);
                proof {
                    pre.remove_ensures(k);
                }
                return ;
            }
            i = i + 1;
        }
    }
}

/// The tiles on which currency pickups have been dropped; at most one pickup
/// per tile is tracked here.
#[derive(Clone, PartialEq, Eq, Debug)]
pub struct CoinsSpawned {
    pub positions: Vec<Tile>,
}

impl CoinsSpawned {
    /// No tile is tracked twice.
    pub open spec fn wf(self) -> bool {
        self.positions@.no_duplicates()
    }

    pub fn new() -> (c: CoinsSpawned)
        ensures
            c.positions@.len() == 0,
            c.wf(),
    {
        CoinsSpawned { positions: Vec::new() }
    }

    pub fn contains(&self, t: Tile) -> (r: bool)
        ensures
            r == self.positions@.contains(t),
    {
        let n: usize = self.positions.len();
        let mut i: usize = 0;
        while i < n
            invariant
                n == self.positions@.len(),
                i <= n,
                forall|j: int| 0 <= j < i ==> self.positions@[j] != t,
            decreases n - i,
        {
            if self.positions[i].x == t.x && self.positions[i].y == t.y {
                return true;
            }
            i = i + 1;
        }
        false
    }

    /// Track a drop tile; a tile already tracked is left alone.
    pub fn insert(&mut self, t: Tile)
        requires
            old(self).wf(),
        ensures
            final(self).wf(),
            old(self).positions@.contains(t) ==> *final(self) == *old(self),
            !old(self).positions@.contains(t) ==> final(self).positions@ == old(
                self,
            ).positions@.push(t),
            forall|x: Tile|
                final(self).positions@.contains(x) <==> (old(self).positions@.contains(x) || x
                    == t),
    {
        if !self.contains(t) {
            self.positions.push(t);
            proof {
                assert(forall|x: Tile|
                    self.positions@.contains(x) <==> (old(self).positions@.contains(x) || x
                        == t)) by {
                    assert(forall|x: Tile|
                        old(self).positions@.contains(x) ==> #[trigger] self.positions@.contains(
                            x,
                        )) by {
                        assert(forall|j: int|
                            0 <= j < old(self).positions@.len() ==> self.positions@[j]
                                == #[trigger] old(self).positions@[j]);
                    }
                    assert(self.positions@[old(self).positions@.len() as int] == t);
                }
            }
        }
    }

    /// Stop tracking a tile after its pickup is collected; a tile that is not
    /// tracked is left alone.
    pub fn remove(&mut self, t: Tile)
        requires
            old(self).wf(),
        ensures
            final(self).wf(),
            forall|x: Tile|
                final(self).positions@.contains(x) <==> (old(self).positions@.contains(x) && x
                    != t),
    {
        let n: usize = self.positions.len();
        let mut i: usize = 0;
        while i < n
            invariant
                n == self.positions@.len(),
                i <= n,
                *self == *old(self),
                old(self).wf(),
                forall|j: int| 0 <= j < i ==> self.positions@[j] != t,
            decreases n - i,
        {
            if self.positions[i].x == t.x && self.positions[i].y == t.y {
                let ghost pre = self.positions@;
                let ghost k = i as int;
                self.positions.remove(i);
                proof {
                    pre.remove_ensures(k);
                    assert forall|x: Tile| self.positions@.contains(x) implies (
                    pre.contains(x) && x != t) by {
                        let j = choose|j: int|
                            0 <= j < self.positions@.len() && self.positions@[j]
                                == x;
                        if j < k {
                            assert(pre[j] == x);
                        } else {
                            assert(pre[j + 1] == x);
                        }
                        assert(pre.contains(x));
                        if x == t {
                            // t occurs only at index k, which was removed
                            let m = choose|m: int| 0 <= m < pre.len() && pre[m] == x;
                            assert(pre[k] == t);
                            assert(m == k);
                            if j < k {
                                assert(pre[j] == pre[k] && j != k);
                            } else {
                                assert(pre[j + 1] == pre[k] && j + 1 != k);
                            }
                        }
                    }
                    assert forall|x: Tile| (pre.contains(x) && x != t) implies self.positions@.contains(x) by {
                        let m = choose|m: int| 0 <= m < pre.len() && pre[m] == x;
                        if m < k {
                            assert(self.positions@[m] == x);
                        } else {
                            assert(m != k);
                            assert(self.positions@[m - 1] == pre[m]);
                        }
                    }
                    assert(self.positions@.no_duplicates()) by {
                        assert(forall|a: int, b: int|
                            0 <= a < b < self.positions@.len() ==> self.positions@[a] != self.positions@[b]) by {
                            assert forall|a: int, b: int|
                                0 <= a < b < self.positions@.len() implies self.positions@[a] != self.positions@[b] by {
                                let pa: int = if a < k {
                                    a
                                } else {
                                    a + 1
                                };
                                let pb: int = if b < k {
                                    b
                                } else {
                                    b + 1
                                };
                                assert(self.positions@[a] == pre[pa]);
                                assert(self.positions@[b] == pre[pb]);
                            }
                        }
                    }
                }
                return ;
            }
            i = i + 1;
        }
    }
}

} // verus!
