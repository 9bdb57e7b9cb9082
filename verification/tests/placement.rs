use farmstead::gameui::ui_load_items;
use farmstead::geom::Tile;
use farmstead::player::ItemStack;
use farmstead::player::ItemType;
use farmstead::player::MAXSTACKSIZE;
use farmstead::sim::Sim;

/// A fresh session holding one stack of `kind`, bound to the first UI slot,
/// with that slot selected.
fn sim_with_stack(kind: ItemType, qty: i32) -> Sim {
    let mut sim = Sim::new();
    sim.init_ui(6);
    sim.inventory.items.push(ItemStack {
        item: kind,
        total_amount: qty,
        max_amount: MAXSTACKSIZE,
        assigned: false,
        ui_entity: 0,
    });
    ui_load_items(&mut sim.ui_slots, &mut sim.inventory);
    sim.selected.select_slot(&sim.ui_slots, 0);
    sim
}

#[test]
fn scenario_house_placement_then_occupied_tile_rejected() {
    let mut sim = sim_with_stack(ItemType::House, 1);
    assert!(sim.spawn_items(Tile::new(3, 3), true));
    assert!(sim.building_coords.contains(Tile::new(3, 3)));
    assert_eq!(sim.inventory.items[0].total_amount, 0);
    assert_eq!(sim.ui_slots[0].amount, 0);
    assert_eq!(sim.houses.len(), 1);
    assert_eq!(sim.houses[0].data.max_capacity, 2);

    // replenish the stack; the tile is occupied, so the click is a no-op
    sim.inventory.items[0].total_amount = 1;
    sim.ui_slots[0].amount = 1;
    assert!(!sim.spawn_items(Tile::new(3, 3), true));
    assert_eq!(sim.houses.len(), 1);
    assert_eq!(sim.building_coords.data.len(), 1);
    assert_eq!(sim.inventory.items[0].total_amount, 1);
    assert_eq!(sim.ui_slots[0].amount, 1);
}

#[test]
fn occupancy_registry_never_holds_a_tile_twice() {
    let mut sim = sim_with_stack(ItemType::Dirt, 5);
    assert!(sim.spawn_items(Tile::new(1, 1), true));
    assert!(!sim.spawn_items(Tile::new(1, 1), true));
    assert!(sim.spawn_items(Tile::new(1, 2), true));
    assert_eq!(sim.building_coords.data.len(), 2);
    assert_eq!(sim.building_tuple.data.len(), 2);
    for i in 0..sim.building_coords.data.len() {
        for j in 0..sim.building_coords.data.len() {
            if i != j {
                assert_ne!(sim.building_coords.data[i], sim.building_coords.data[j]);
            }
        }
    }
}

#[test]
fn placement_decrements_exactly_one_stack_and_one_slot() {
    let mut sim = Sim::new();
    sim.init_ui(6);
    sim.inventory.items.push(ItemStack {
        item: ItemType::Coin,
        total_amount: 64,
        max_amount: MAXSTACKSIZE,
        assigned: false,
        ui_entity: 0,
    });
    sim.inventory.items.push(ItemStack {
        item: ItemType::House,
        total_amount: 32,
        max_amount: MAXSTACKSIZE,
        assigned: false,
        ui_entity: 0,
    });
    ui_load_items(&mut sim.ui_slots, &mut sim.inventory);
    ui_load_items(&mut sim.ui_slots, &mut sim.inventory);
    // select the house slot, the second one bound
    sim.selected.select_slot(&sim.ui_slots, 1);
    assert!(sim.spawn_items(Tile::new(7, 7), true));
    assert_eq!(sim.inventory.items[0].total_amount, 64);
    assert_eq!(sim.inventory.items[1].total_amount, 31);
    assert_eq!(sim.ui_slots[0].amount, 64);
    assert_eq!(sim.ui_slots[1].amount, 31);
}

#[test]
fn rejected_requests_mutate_nothing() {
    // pointer over a blocking UI region
    let mut sim = sim_with_stack(ItemType::House, 3);
    assert!(!sim.spawn_items(Tile::new(0, 0), false));
    assert_eq!(sim.inventory.items[0].total_amount, 3);
    assert_eq!(sim.houses.len(), 0);

    // nothing selected
    let mut sim = sim_with_stack(ItemType::House, 3);
    sim.selected.clear();
    assert!(!sim.spawn_items(Tile::new(0, 0), true));
    assert_eq!(sim.inventory.items[0].total_amount, 3);

    // a tool is selected; tools are not placeable
    let mut sim = sim_with_stack(ItemType::Shovel, 3);
    assert!(!sim.spawn_items(Tile::new(0, 0), true));
    assert_eq!(sim.inventory.items[0].total_amount, 3);

    // empty stack
    let mut sim = sim_with_stack(ItemType::House, 1);
    sim.inventory.items[0].total_amount = 0;
    assert!(!sim.spawn_items(Tile::new(0, 0), true));
    assert_eq!(sim.houses.len(), 0);
}

#[test]
fn slot_desync_leaves_the_stack_alone() {
    // the stack points at a UI slot that no longer exists: the request is
    // dropped whole, and in particular the stack is not decremented
    let mut sim = sim_with_stack(ItemType::House, 2);
    sim.selected.ui_entity = 9999;
    sim.inventory.items[0].ui_entity = 9999;
    assert!(!sim.spawn_items(Tile::new(2, 2), true));
    assert_eq!(sim.inventory.items[0].total_amount, 2);
    assert_eq!(sim.houses.len(), 0);
}

#[test]
fn pickups_and_workers_do_not_occupy_tiles() {
    let mut sim = sim_with_stack(ItemType::House, 1);
    assert!(sim.spawn_items(Tile::new(4, 4), true));
    assert_eq!(sim.building_coords.data.len(), 1);

    // a coin lands on the occupied tile without checking or registering it
    let mut sim2 = sim_with_stack(ItemType::Coin, 5);
    sim2.build_house_at(Tile::new(4, 4));
    assert!(sim2.spawn_items(Tile::new(4, 4), true));
    assert_eq!(sim2.pickups.len(), 1);
    assert_eq!(sim2.building_coords.data.len(), 1);

    // so does a worker
    let mut sim3 = sim_with_stack(ItemType::Worker, 5);
    sim3.build_house_at(Tile::new(4, 4));
    assert!(sim3.spawn_items(Tile::new(4, 4), true));
    assert_eq!(sim3.workers.len(), 1);
    assert_eq!(sim3.building_coords.data.len(), 1);
}

#[test]
fn drop_positions_track_a_tile_at_most_once() {
    let mut sim = sim_with_stack(ItemType::Coin, 5);
    assert!(sim.spawn_items(Tile::new(6, 6), true));
    assert!(sim.spawn_items(Tile::new(6, 6), true));
    assert_eq!(sim.pickups.len(), 2);
    assert_eq!(sim.coins_spawned.positions.len(), 1);
}

#[test]
fn dirt_placement_spawns_a_fresh_idle_plot() {
    let mut sim = sim_with_stack(ItemType::Dirt, 1);
    assert!(sim.spawn_items(Tile::new(9, 9), true));
    assert_eq!(sim.plots.len(), 1);
    let plot = &sim.plots[0];
    assert_eq!(plot.data.growth_state, 0);
    assert!(!plot.data.growth_active);
    assert!(!plot.data.worker_assigned_bool);
    assert!(!plot.data.growth_complete);
    assert!(matches!(
        sim.building_tuple.kind_at(Tile::new(9, 9)),
        Some(ItemType::Dirt)
    ));
}
