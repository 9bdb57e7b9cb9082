use farmstead::gameui::ui_load_items;
use farmstead::gameui::ui_reset_slot;
use farmstead::gameui::ItemSelected;
use farmstead::gameui::UiSlot;
use farmstead::player::ItemStack;
use farmstead::player::ItemType;
use farmstead::player::PlayerInventory;
use farmstead::player::MAXSTACKSIZE;
use farmstead::sim::Sim;

fn empty_slot(id: u64) -> UiSlot {
    UiSlot { id, item: ItemType::Nothing, amount: 0, assigned: false }
}

#[test]
fn starting_loadout_matches_the_session_start() {
    let mut inv = PlayerInventory::new();
    inv.init();
    assert_eq!(inv.items.len(), 4);
    assert_eq!(inv.items[0].item, ItemType::Coin);
    assert_eq!(inv.items[0].total_amount, 64);
    assert_eq!(inv.items[1].item, ItemType::House);
    assert_eq!(inv.items[1].total_amount, 32);
    assert_eq!(inv.items[2].item, ItemType::Dirt);
    assert_eq!(inv.items[2].total_amount, 16);
    assert_eq!(inv.items[3].item, ItemType::Worker);
    assert_eq!(inv.items[3].total_amount, 999);
}

#[test]
fn loading_binds_first_unbound_stack_to_first_empty_slot() {
    let mut inv = PlayerInventory::new();
    inv.init();
    let mut slots = vec![empty_slot(10), empty_slot(11)];
    ui_load_items(&mut slots, &mut inv);
    assert_eq!(slots[0].item, ItemType::Coin);
    assert_eq!(slots[0].amount, 64);
    assert!(slots[0].assigned);
    assert!(inv.items[0].assigned);
    assert_eq!(inv.items[0].ui_entity, 10);
    // the second stack is untouched until the next load
    assert!(!inv.items[1].assigned);
    ui_load_items(&mut slots, &mut inv);
    assert_eq!(slots[1].item, ItemType::House);
    assert_eq!(inv.items[1].ui_entity, 11);
}

#[test]
fn loading_without_room_changes_nothing() {
    let mut inv = PlayerInventory::new();
    inv.init();
    let mut slots: Vec<UiSlot> = Vec::new();
    ui_load_items(&mut slots, &mut inv);
    assert!(!inv.items[0].assigned);
}

#[test]
fn exhausted_slot_is_recycled_to_empty() {
    let mut slots = vec![
        UiSlot { id: 1, item: ItemType::House, amount: 3, assigned: true },
        UiSlot { id: 2, item: ItemType::Dirt, amount: 0, assigned: true },
    ];
    ui_reset_slot(&mut slots);
    assert_eq!(slots[0].item, ItemType::House);
    assert_eq!(slots[1].item, ItemType::Nothing);
    assert!(!slots[1].assigned);
}

#[test]
fn depleted_stack_is_removed_from_the_inventory() {
    let mut inv = PlayerInventory::new();
    inv.items.push(ItemStack {
        item: ItemType::House,
        total_amount: 2,
        max_amount: MAXSTACKSIZE,
        assigned: false,
        ui_entity: 0,
    });
    inv.items.push(ItemStack {
        item: ItemType::Dirt,
        total_amount: 0,
        max_amount: MAXSTACKSIZE,
        assigned: false,
        ui_entity: 0,
    });
    inv.despawn_inventory_stack();
    assert_eq!(inv.items.len(), 1);
    assert_eq!(inv.items[0].item, ItemType::House);
    // nothing left to remove
    inv.despawn_inventory_stack();
    assert_eq!(inv.items.len(), 1);
}

#[test]
fn selection_follows_slot_presses_and_cancel() {
    let slots = vec![
        UiSlot { id: 7, item: ItemType::Dirt, amount: 5, assigned: true },
    ];
    let mut sel = ItemSelected::new();
    assert_eq!(sel.selected, ItemType::Nothing);
    sel.select_slot(&slots, 0);
    assert_eq!(sel.selected, ItemType::Dirt);
    assert_eq!(sel.ui_entity, 7);
    sel.clear();
    assert_eq!(sel.selected, ItemType::Nothing);
    assert_eq!(sel.ui_entity, 0);
}

#[test]
fn stale_selection_is_cleared_on_validation() {
    let slots = vec![
        UiSlot { id: 7, item: ItemType::Dirt, amount: 5, assigned: true },
    ];
    let mut sel = ItemSelected::new();
    sel.select_slot(&slots, 0);
    sel.validate(&slots);
    assert_eq!(sel.ui_entity, 7);
    let gone: Vec<UiSlot> = Vec::new();
    sel.validate(&gone);
    assert_eq!(sel.selected, ItemType::Nothing);
    assert_eq!(sel.ui_entity, 0);
}

#[test]
fn session_setup_gives_six_bindable_slots() {
    let mut sim = Sim::new();
    sim.init_ui(6);
    sim.inventory.init();
    assert_eq!(sim.ui_slots.len(), 6);
    for _ in 0..4 {
        ui_load_items(&mut sim.ui_slots, &mut sim.inventory);
    }
    assert_eq!(sim.ui_slots[3].item, ItemType::Worker);
    assert_eq!(sim.ui_slots[4].item, ItemType::Nothing);
}
