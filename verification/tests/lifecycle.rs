use farmstead::gameui::ui_load_items;
use farmstead::geom::Tile;
use farmstead::player::ItemType;
use farmstead::sim::Sim;
use farmstead::worker::WorkerState;
use farmstead::world::Meridiem;

/// The whole lifecycle in one session, driven only through the public entry
/// points: the starting loadout is bound to slots, a house, a plot, a worker
/// and a coin are placed by clicks, and over the following ticks the worker
/// forages the coin, gets employed, moves into the house, claims the plot
/// and starts tending it.
#[test]
fn full_worker_lifecycle() {
    let mut sim = Sim::new();
    sim.init_ui(6);
    sim.inventory.init();
    for _ in 0..4 {
        ui_load_items(&mut sim.ui_slots, &mut sim.inventory);
    }
    // slots now hold, in order: coin, house, dirt, worker
    assert_eq!(sim.ui_slots[1].item, ItemType::House);
    sim.selected.select_slot(&sim.ui_slots, 1);
    assert!(sim.spawn_items(Tile::new(10, 10), true));
    sim.selected.select_slot(&sim.ui_slots, 2);
    assert!(sim.spawn_items(Tile::new(12, 10), true));
    sim.selected.select_slot(&sim.ui_slots, 3);
    assert!(sim.spawn_items(Tile::new(4, 4), true));
    sim.selected.select_slot(&sim.ui_slots, 0);
    assert!(sim.spawn_items(Tile::new(5, 5), true));
    sim.selected.clear();

    // exactly one unit left each stack and each counter
    assert_eq!(sim.inventory.items[0].total_amount, 63);
    assert_eq!(sim.inventory.items[1].total_amount, 31);
    assert_eq!(sim.inventory.items[2].total_amount, 15);
    assert_eq!(sim.inventory.items[3].total_amount, 998);
    assert_eq!(sim.ui_slots[1].amount, 31);

    // only the house and the plot occupy tiles
    assert_eq!(sim.building_coords.data.len(), 2);

    // it is mid-morning: the work window is open
    sim.clock.actual_hour = 9;
    sim.clock.meridiem = Meridiem::AM;

    for _ in 0..50 {
        sim.tick(100);
    }

    let w = &sim.workers[0];
    assert_eq!(w.data.coins, 1);
    assert!(sim.pickups.is_empty());
    assert!(matches!(w.state, WorkerState::Working));
    assert!(w.data.house_assigned);
    assert_eq!(w.data.house_pos, Tile::new(10, 10));
    assert_eq!(sim.houses[0].data.assigned_workers.len(), 1);
    assert_eq!(sim.houses[0].data.assigned_workers[0], w.id);
    assert!(sim.plots[0].data.worker_assigned_bool);
    assert_eq!(sim.plots[0].data.worker_assigned_entity, w.id);
    // the commute has converged onto the plot and the crop is growing
    assert!((w.pos.x - 12_000).abs() < 1000);
    assert!((w.pos.y - 10_000).abs() < 1000);
    assert!(w.data.target_crop_active);
    assert!(sim.plots[0].data.growth_active);
}
