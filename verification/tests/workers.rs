use farmstead::geom::Pos;
use farmstead::geom::Tile;
use farmstead::sim::Sim;
use farmstead::worker::Worker;
use farmstead::worker::WorkerState;

/// An Employed agent holding its coin, ready for housing.
fn employed_worker(id: u64, tile: Tile) -> Worker {
    let mut w = Worker::fresh(id, Pos::of_tile(tile));
    w.state = WorkerState::Employed;
    w.state_next = WorkerState::Employed;
    w.data.coins = 1;
    w
}

#[test]
fn scenario_forager_walks_to_coin_and_collects_it() {
    // a pickup at (5,5), a worker at (4,4), detection box 8 tiles wide
    let mut sim = Sim::new();
    sim.drop_coin_at(Tile::new(5, 5));
    sim.spawn_worker_at(Tile::new(4, 4));
    for _ in 0..40 {
        sim.tick(100);
    }
    let w = &sim.workers[0];
    assert!((w.pos.x - 5000).abs() < 100);
    assert!((w.pos.y - 5000).abs() < 100);
    assert_eq!(w.data.coins, 1);
    assert!(matches!(w.state, WorkerState::Employed));
    assert!(sim.pickups.is_empty());
    assert!(sim.coins_spawned.positions.is_empty());
    assert!(w.data.target_coin_entity.is_none());
}

#[test]
fn foragers_never_share_a_claimed_pickup() {
    let mut sim = Sim::new();
    sim.drop_coin_at(Tile::new(0, 0));
    sim.spawn_worker_at(Tile::new(2, 0));
    sim.spawn_worker_at(Tile::new(0, 2));
    sim.tick(100);
    let claims: Vec<u64> = sim
        .workers
        .iter()
        .filter_map(|w| w.data.target_coin_entity)
        .collect();
    assert_eq!(claims.len(), 1);

    // with two pickups both agents claim, and they claim different ones
    let mut sim2 = Sim::new();
    sim2.drop_coin_at(Tile::new(0, 0));
    sim2.drop_coin_at(Tile::new(1, 0));
    sim2.spawn_worker_at(Tile::new(3, 0));
    sim2.spawn_worker_at(Tile::new(0, 3));
    sim2.tick(100);
    let claims2: Vec<u64> = sim2
        .workers
        .iter()
        .filter_map(|w| w.data.target_coin_entity)
        .collect();
    assert_eq!(claims2.len(), 2);
    assert_ne!(claims2[0], claims2[1]);
}

#[test]
fn out_of_range_pickups_are_ignored() {
    let mut sim = Sim::new();
    sim.drop_coin_at(Tile::new(20, 20));
    sim.spawn_worker_at(Tile::new(0, 0));
    sim.tick(100);
    assert!(sim.workers[0].data.target_coin_entity.is_none());
}

#[test]
fn house_assignments_respect_capacity() {
    // one house of capacity 2 and three employed agents: after enough
    // ticks exactly two live there and the third stays unhoused
    let mut sim = Sim::new();
    sim.build_house_at(Tile::new(10, 10));
    let base = sim.next_id;
    sim.workers.push(employed_worker(base, Tile::new(0, 0)));
    sim.workers.push(employed_worker(base + 1, Tile::new(1, 0)));
    sim.workers.push(employed_worker(base + 2, Tile::new(2, 0)));
    sim.next_id = base + 3;
    for _ in 0..4 {
        sim.tick(100);
    }
    assert_eq!(sim.houses[0].data.assigned_workers.len(), 2);
    assert!(sim.houses[0].data.assigned_workers.len() <= sim.houses[0].data.max_capacity as usize);
    let housed = sim.workers.iter().filter(|w| w.data.house_assigned).count();
    assert_eq!(housed, 2);
    let unhoused = sim.workers.iter().find(|w| !w.data.house_assigned).unwrap();
    assert!(matches!(unhoused.state, WorkerState::Employed));
}

#[test]
fn housed_worker_snaps_home_and_starts_working() {
    let mut sim = Sim::new();
    sim.build_house_at(Tile::new(10, 10));
    let base = sim.next_id;
    sim.workers.push(employed_worker(base, Tile::new(0, 0)));
    sim.next_id = base + 1;
    sim.tick(100);
    let w = &sim.workers[0];
    assert!(w.data.house_assigned);
    assert_eq!(w.data.house_pos, Tile::new(10, 10));
    assert_eq!(w.pos, Pos::of_tile(Tile::new(10, 10)));
    assert!(matches!(w.state, WorkerState::Working));
}

#[test]
fn transitions_are_deferred_to_the_end_of_the_tick() {
    // the agent collected its coin mid-tick; its Employed state is only
    // visible from the next tick on, so housing happens one tick later
    let mut sim = Sim::new();
    sim.build_house_at(Tile::new(10, 10));
    sim.drop_coin_at(Tile::new(0, 0));
    sim.spawn_worker_at(Tile::new(0, 0));
    sim.tick(100);
    // collected during the first tick: employed now, but not yet housed
    assert!(matches!(sim.workers[0].state, WorkerState::Employed));
    assert!(!sim.workers[0].data.house_assigned);
    sim.tick(100);
    assert!(sim.workers[0].data.house_assigned);
}

#[test]
fn clean_scene_despawns_workers_and_houses_only() {
    let mut sim = Sim::new();
    sim.build_house_at(Tile::new(1, 1));
    sim.prepare_dirt_at(Tile::new(2, 2));
    sim.spawn_worker_at(Tile::new(0, 0));
    sim.drop_coin_at(Tile::new(3, 3));
    sim.clean_scene();
    assert!(sim.workers.is_empty());
    assert!(sim.houses.is_empty());
    assert_eq!(sim.plots.len(), 1);
    assert_eq!(sim.pickups.len(), 1);
    assert_eq!(sim.building_coords.data.len(), 2);
}

#[test]
fn worker_amount_follows_house_count() {
    let mut sim = Sim::new();
    sim.build_house_at(Tile::new(1, 1));
    sim.build_house_at(Tile::new(2, 2));
    sim.tick(100);
    assert_eq!(sim.worker_amount.total, 2);
}

#[test]
fn reset_mid_session_is_tolerated_by_later_ticks() {
    let mut sim = Sim::new();
    sim.build_house_at(Tile::new(10, 10));
    sim.prepare_dirt_at(Tile::new(12, 10));
    sim.drop_coin_at(Tile::new(5, 5));
    sim.spawn_worker_at(Tile::new(4, 4));
    for _ in 0..30 {
        sim.tick(100);
    }
    // the session is torn down while the plot still records its worker
    sim.clean_scene();
    assert!(sim.plots[0].data.worker_assigned_bool);
    for _ in 0..30 {
        sim.tick(100);
    }
    // nothing references the despawned identities; new agents still run
    sim.drop_coin_at(Tile::new(5, 5));
    sim.spawn_worker_at(Tile::new(4, 4));
    for _ in 0..40 {
        sim.tick(100);
    }
    assert_eq!(sim.workers[0].data.coins, 1);
}
