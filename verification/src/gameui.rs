//! UI-facing inventory state: the display slots that mirror inventory
//! stacks, and the player's current item selection.
//!
//! The UI layer owns layout and widgets; the simulation only keeps, per
//! slot, the item kind, the displayed count and the binding flag, and
//! mutates those counters.  A slot is addressed by its handle `id`, the
//! value stacks store in `ui_entity`.

use vstd::prelude::*;
use crate::player::ItemType;
use crate::player::PlayerInventory;

verus! {

/// One inventory display slot.
#[derive(Clone, Copy, PartialEq, Eq, Structural, Debug)]
pub struct UiSlot {
    /// Handle the rest of the simulation refers to this slot by.
    pub id: u64,
    pub item: ItemType,
    /// Count shown to the player; kept in step with the bound stack.
    pub amount: i32,
    /// Whether an inventory stack is bound to this slot.
    pub assigned: bool,
}

/// The item kind currently selected for placement and the slot it came from.
/// `ui_entity` 0 means no slot.
#[derive(Clone, Copy, PartialEq, Eq, Structural, Debug)]
pub struct ItemSelected {
    pub selected: ItemType,
    pub ui_entity: u64,
}

/// A stack the UI has not yet bound to a slot.
pub open spec fn stack_unbound_s(s: crate::player::ItemStack) -> bool {
    !s.assigned
}

/// A slot showing no item, free to take a stack.
pub open spec fn slot_empty_s(sl: UiSlot) -> bool {
    sl.item == ItemType::Nothing
}

/// A slot whose count ran out while it still shows an item.
pub open spec fn slot_exhausted_s(sl: UiSlot) -> bool {
    sl.amount < 1 && sl.item != ItemType::Nothing
}

impl ItemSelected {
    /// No item selected, bound to no slot.
    pub open spec fn cleared_s() -> ItemSelected {
        ItemSelected { selected: ItemType::Nothing, ui_entity: 0 }
    }

    pub fn new() -> (sel: ItemSelected)
        ensures
            sel == ItemSelected::cleared_s(),
    {
        ItemSelected { selected: ItemType::Nothing, ui_entity: 0 }
    }

    /// A press on slot `i` makes its item the current selection.
    pub fn select_slot(&mut self, slots: &Vec<UiSlot>, i: usize)
        requires
            i < slots@.len(),
        ensures
            final(self).selected == slots@[i as int].item,
            final(self).ui_entity == slots@[i as int].id,
    {
        self.selected = slots[i].item;
        self.ui_entity = slots[i].id;
    }

    /// A cancel event (secondary click or escape) clears the selection.
    pub fn clear(&mut self)
        ensures
            *final(self) == ItemSelected::cleared_s(),
    {
        self.selected = ItemType::Nothing;
        self.ui_entity = 0;
    }

    /// A selection whose slot no longer exists is cleared; a selection still
    /// backed by a slot is left alone.
    pub fn validate(&mut self, slots: &Vec<UiSlot>)
        ensures
            (exists|j: int|
                0 <= j < slots@.len() && (#[trigger] slots@[j]).id == old(self).ui_entity)
                ==> *final(self) == *old(self),
            !(exists|j: int|
                0 <= j < slots@.len() && (#[trigger] slots@[j]).id == old(self).ui_entity)
                ==> *final(self) == ItemSelected::cleared_s(),
    {
        let n: usize = slots.len();
        let mut i: usize = 0;
        while i < n
            invariant
                n == slots@.len(),
                i <= n,
                *self == *old(self),
                forall|j: int| 0 <= j < i ==> (#[trigger] slots@[j]).id != old(self).ui_entity,
            decreases n - i,
        {
            if slots[i].id == self.ui_entity {
                return ;
            }
            i = i + 1;
        }
        self.selected = ItemType::Nothing;
        self.ui_entity = 0;
    }
}

/// Bind the first stack the UI has not yet picked up to the first empty
/// slot: the slot takes the stack's item and count, and the stack records
/// the slot's handle.  With no unbound stack or no empty slot, nothing
/// changes.
pub fn ui_load_items(slots: &mut Vec<UiSlot>, inventory: &mut PlayerInventory)
    requires
        old(inventory).wf(),
    ensures
        final(inventory).wf(),
        final(inventory).size == old(inventory).size,
        final(slots)@.len() == old(slots)@.len(),
        final(inventory).items@.len() == old(inventory).items@.len(),
        (forall|i: int|
            0 <= i < old(inventory).items@.len() ==> !stack_unbound_s(
                #[trigger] old(inventory).items@[i],
            )) ==> (*final(slots) == *old(slots) && *final(inventory) == *old(inventory)),
        (forall|k: int| 0 <= k < old(slots)@.len() ==> !slot_empty_s(#[trigger] old(slots)@[k]))
            ==> (*final(slots) == *old(slots) && *final(inventory) == *old(inventory)),
        ((exists|i: int|
            0 <= i < old(inventory).items@.len() && stack_unbound_s(
                #[trigger] old(inventory).items@[i],
            )) && (exists|k: int|
            0 <= k < old(slots)@.len() && slot_empty_s(#[trigger] old(slots)@[k]))) ==> (exists|
            i: int,
            k: int,
        |
            {
                &&& 0 <= i < old(inventory).items@.len()
                &&& stack_unbound_s(#[trigger] old(inventory).items@[i])
                &&& forall|j: int|
                    0 <= j < i ==> !stack_unbound_s(#[trigger] old(inventory).items@[j])
                &&& 0 <= k < old(slots)@.len()
                &&& slot_empty_s(#[trigger] old(slots)@[k])
                &&& forall|j: int| 0 <= j < k ==> !slot_empty_s(#[trigger] old(slots)@[j])
                &&& final(slots)@ == old(slots)@.update(
                    k,
                    UiSlot {
                        id: old(slots)@[k].id,
                        item: old(inventory).items@[i].item,
                        amount: old(inventory).items@[i].total_amount,
                        assigned: true,
                    },
                )
                &&& final(inventory).items@ == old(inventory).items@.update(
                    i,
                    crate::player::ItemStack {
                        item: old(inventory).items@[i].item,
                        total_amount: old(inventory).items@[i].total_amount,
                        max_amount: old(inventory).items@[i].max_amount,
                        assigned: true,
                        ui_entity: old(slots)@[k].id,
                    },
                )
            }),
{
    let stacks: usize = inventory.items.len();
    let mut i: usize = 0;
    loop
        invariant
            stacks == inventory.items@.len(),
            i <= stacks,
            *inventory == *old(inventory),
            *slots == *old(slots),
            old(inventory).wf(),
            forall|j: int| 0 <= j < i ==> !stack_unbound_s(#[trigger] inventory.items@[j]),
        ensures
            *inventory == *old(inventory),
            *slots == *old(slots),
            i <= stacks,
            i < stacks ==> stack_unbound_s(inventory.items@[i as int]),
            i < stacks ==> forall|j: int|
                0 <= j < i ==> !stack_unbound_s(#[trigger] inventory.items@[j]),
            i == stacks ==> forall|j: int|
                0 <= j < stacks ==> !stack_unbound_s(#[trigger] inventory.items@[j]),
        decreases stacks - i,
    {
        if i >= stacks {
            break ;
        }
        if !inventory.items[i].assigned {
            break ;
        }
        i = i + 1;
    }
    if i >= stacks {
        return ;
    }
    let count: usize = slots.len();
    let mut k: usize = 0;
    loop
        invariant
            count == slots@.len(),
            k <= count,
            *inventory == *old(inventory),
            *slots == *old(slots),
            forall|j: int| 0 <= j < k ==> !slot_empty_s(#[trigger] slots@[j]),
        ensures
            *inventory == *old(inventory),
            *slots == *old(slots),
            k <= count,
            k < count ==> slot_empty_s(slots@[k as int]),
            k < count ==> forall|j: int| 0 <= j < k ==> !slot_empty_s(#[trigger] slots@[j]),
            k == count ==> forall|j: int| 0 <= j < count ==> !slot_empty_s(#[trigger] slots@[j]),
        decreases count - k,
    {
        if k >= count {
            break ;
        }
        if matches!(slots[k].item, ItemType::Nothing) {
            break ;
        }
        k = k + 1;
    }
    if k >= count {
        return ;
    }
    let slot_id: u64 = slots[k].id;
    let item: ItemType = inventory.items[i].item;
    let amount: i32 = inventory.items[i].total_amount;
    slots[k] = UiSlot { id: slot_id, item, amount, assigned: true };
    let stack = inventory.items[i];
    inventory.items[i] = crate::player::ItemStack {
        item: stack.item,
        total_amount: stack.total_amount,
        max_amount: stack.max_amount,
        assigned: true,
        ui_entity: slot_id,
    };
}

/// Reset the first slot whose count ran out back to an empty slot; its item
/// becomes `Nothing` and its binding is released.
pub fn ui_reset_slot(slots: &mut Vec<UiSlot>)
    ensures
        final(slots)@.len() == old(slots)@.len(),
        (forall|k: int| 0 <= k < old(slots)@.len() ==> !slot_exhausted_s(#[trigger] old(slots)@[k]))
            ==> *final(slots) == *old(slots),
        (exists|k: int|
            0 <= k < old(slots)@.len() && slot_exhausted_s(#[trigger] old(slots)@[k])) ==> (exists|
            k: int,
        |
            {
                &&& 0 <= k < old(slots)@.len()
                &&& slot_exhausted_s(#[trigger] old(slots)@[k])
                &&& forall|j: int| 0 <= j < k ==> !slot_exhausted_s(#[trigger] old(slots)@[j])
                &&& final(slots)@ == old(slots)@.update(
                    k,
                    UiSlot {
                        id: old(slots)@[k].id,
                        item: ItemType::Nothing,
                        amount: old(slots)@[k].amount,
                        assigned: false,
                    },
                )
            }),
{
    let count: usize = slots.len();
    let mut k: usize = 0;
    while k < count
        invariant
            count == slots@.len(),
            k <= count,
            *slots == *old(slots),
            forall|j: int| 0 <= j < k ==> !slot_exhausted_s(#[trigger] slots@[j]),
        decreases count - k,
    {
        let is_exhausted: bool = slots[k].amount < 1 && !matches!(slots[k].item, ItemType::Nothing);
        if is_exhausted {
            let id: u64 = slots[k].id;
            let amount: i32 = slots[k].amount;
            slots[k] = UiSlot { id, item: ItemType::Nothing, amount, assigned: false };
            return ;
        }
        k = k + 1;
    }
}

} // verus!
