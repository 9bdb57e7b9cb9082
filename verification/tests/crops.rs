use farmstead::crop::crop_growth_manager;
use farmstead::crop::DirtPlot;
use farmstead::crop::PreparedDirtData;
use farmstead::geom::Pos;
use farmstead::geom::Tile;
use farmstead::sim::Sim;
use farmstead::timer::Timer;
use farmstead::worker::Worker;
use farmstead::worker::WorkerState;
use farmstead::world::Meridiem;

fn plot_at(id: u64, tile: Tile) -> DirtPlot {
    DirtPlot { id, pos: Pos::of_tile(tile), data: PreparedDirtData::fresh() }
}

/// A Working agent already housed at `home`.
fn working_worker(id: u64, at: Tile, home: Tile) -> Worker {
    let mut w = Worker::fresh(id, Pos::of_tile(at));
    w.state = WorkerState::Working;
    w.state_next = WorkerState::Working;
    w.data.coins = 1;
    w.data.house_assigned = true;
    w.data.house_pos = home;
    w
}

#[test]
fn growth_rises_by_one_per_elapsed_period_while_active() {
    let mut plots = vec![plot_at(1, Tile::new(0, 0))];
    plots[0].data.growth_active = true;
    plots[0].data.growth_state_timer = Timer::new(500, true);
    for _ in 0..5 {
        crop_growth_manager(&mut plots, 250);
    }
    // 1250 ms over a 500 ms repeating period: two firings
    assert_eq!(plots[0].data.growth_state, 2);
    crop_growth_manager(&mut plots, 250);
    assert_eq!(plots[0].data.growth_state, 3);
}

#[test]
fn inactive_plots_never_change() {
    let mut plots = vec![plot_at(1, Tile::new(0, 0))];
    let before = plots[0];
    for _ in 0..100 {
        crop_growth_manager(&mut plots, 1000);
    }
    assert_eq!(plots[0], before);
}

#[test]
fn one_shot_growth_timer_fires_once() {
    let mut plots = vec![plot_at(1, Tile::new(0, 0))];
    plots[0].data.growth_active = true;
    // the default plot timer is a 60 s one-shot
    for _ in 0..120 {
        crop_growth_manager(&mut plots, 1000);
    }
    assert_eq!(plots[0].data.growth_state, 1);
}

#[test]
fn working_agent_claims_the_first_free_plot() {
    let mut sim = Sim::new();
    sim.prepare_dirt_at(Tile::new(3, 0));
    sim.prepare_dirt_at(Tile::new(4, 0));
    let base = sim.next_id;
    sim.workers.push(working_worker(base, Tile::new(0, 0), Tile::new(0, 0)));
    sim.next_id = base + 1;
    sim.tick(100);
    assert!(sim.plots[0].data.worker_assigned_bool);
    assert_eq!(sim.plots[0].data.worker_assigned_entity, base);
    assert!(!sim.plots[1].data.worker_assigned_bool);
    assert_eq!(sim.workers[0].data.target_crop_entity, Some(sim.plots[0].id));
}

#[test]
fn agent_tends_its_plot_during_the_work_window() {
    let mut sim = Sim::new();
    sim.clock.actual_hour = 9;
    sim.clock.meridiem = Meridiem::AM;
    sim.prepare_dirt_at(Tile::new(1, 0));
    let base = sim.next_id;
    sim.workers.push(working_worker(base, Tile::new(1, 0), Tile::new(0, 0)));
    sim.next_id = base + 1;
    sim.tick(100);
    // standing on the plot: the agent is at work and the crop grows
    assert!(sim.workers[0].data.target_crop_active);
    assert!(sim.plots[0].data.growth_active);
}

#[test]
fn agent_eases_toward_its_plot_while_on_shift() {
    let mut sim = Sim::new();
    sim.clock.actual_hour = 9;
    sim.clock.meridiem = Meridiem::AM;
    sim.prepare_dirt_at(Tile::new(10, 0));
    let base = sim.next_id;
    sim.workers.push(working_worker(base, Tile::new(0, 0), Tile::new(0, 0)));
    sim.next_id = base + 1;
    let mut last: i64 = sim.workers[0].pos.x;
    for _ in 0..30 {
        sim.tick(100);
        assert!(sim.workers[0].pos.x >= last);
        last = sim.workers[0].pos.x;
    }
    // the ease-toward movement converges without ever quite arriving
    assert!((last - 10_000).abs() < 1000);
}

#[test]
fn agent_heads_home_outside_the_work_window() {
    let mut sim = Sim::new();
    sim.clock.actual_hour = 3;
    sim.clock.meridiem = Meridiem::AM;
    sim.prepare_dirt_at(Tile::new(10, 0));
    let base = sim.next_id;
    sim.workers.push(working_worker(base, Tile::new(6, 0), Tile::new(0, 0)));
    sim.next_id = base + 1;
    for _ in 0..30 {
        sim.tick(100);
    }
    // it claimed the plot but walked toward its house instead
    assert!(sim.plots[0].data.worker_assigned_bool);
    assert!(sim.workers[0].pos.x < 1000);
}

#[test]
fn crop_menu_opens_only_for_dirt_with_nothing_selected() {
    let mut sim = Sim::new();
    sim.prepare_dirt_at(Tile::new(5, 5));
    sim.build_house_at(Tile::new(6, 6));
    assert_eq!(
        sim.dyn_ui_selection(Tile::new(5, 5)),
        Some((farmstead::player::ItemType::Dirt, 2))
    );
    assert_eq!(
        sim.dyn_ui_selection(Tile::new(6, 6)),
        Some((farmstead::player::ItemType::Nothing, 0))
    );
    assert_eq!(sim.dyn_ui_selection(Tile::new(7, 7)), None);
    sim.selected.selected = farmstead::player::ItemType::Dirt;
    assert_eq!(sim.dyn_ui_selection(Tile::new(5, 5)), None);
}

#[test]
fn menu_action_selects_the_crop_kind() {
    let mut sim = Sim::new();
    sim.prepare_dirt_at(Tile::new(5, 5));
    let id = sim.plot_at(Tile::new(5, 5)).unwrap();
    assert!(!sim.plots[0].data.crop_type_selected);
    sim.select_crop_kind(id);
    assert!(sim.plots[0].data.crop_type_selected);
}
