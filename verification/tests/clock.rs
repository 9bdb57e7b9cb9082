use farmstead::timer::Timer;
use farmstead::world::Meridiem;
use farmstead::world::WorldSettings;

fn run(clock: &mut WorldSettings, ms: u64) {
    let mut left = ms;
    while left > 0 {
        let dt = if left > 1000 { 1000 } else { left };
        clock.day_timer_tick(dt);
        left -= dt;
    }
}

#[test]
fn clock_starts_at_zero_am() {
    let clock = WorldSettings::new(5000);
    assert_eq!(clock.actual_hour, 0);
    assert!(matches!(clock.meridiem, Meridiem::AM));
}

#[test]
fn seven_periods_give_hour_seven_am() {
    // period 5.0 s; after 36.0 s seven periods have elapsed
    let mut clock = WorldSettings::new(5000);
    run(&mut clock, 36_000);
    assert_eq!(clock.actual_hour, 7);
    assert!(matches!(clock.meridiem, Meridiem::AM));
}

#[test]
fn hour_follows_period_count_with_wrap() {
    // hour-of-day after n periods is ((n - 1) % 12) + 1
    let mut clock = WorldSettings::new(1000);
    for n in 1u64..=30 {
        run(&mut clock, 1000);
        assert_eq!(clock.actual_hour as u64, ((n - 1) % 12) + 1);
    }
}

#[test]
fn meridiem_flips_every_twelve_periods() {
    let mut clock = WorldSettings::new(1000);
    run(&mut clock, 12_000);
    assert_eq!(clock.actual_hour, 12);
    assert!(matches!(clock.meridiem, Meridiem::AM));
    run(&mut clock, 1000);
    assert_eq!(clock.actual_hour, 1);
    assert!(matches!(clock.meridiem, Meridiem::PM));
    run(&mut clock, 12_000);
    assert_eq!(clock.actual_hour, 1);
    assert!(matches!(clock.meridiem, Meridiem::AM));
}

#[test]
fn repeating_timer_keeps_the_remainder() {
    let mut t = Timer::new(700, true);
    assert!(!t.tick(500));
    assert!(t.tick(500));
    assert_eq!(t.elapsed_ms, 300);
}

#[test]
fn one_shot_timer_fires_once() {
    let mut t = Timer::new(600, false);
    assert!(!t.tick(500));
    assert!(t.tick(500));
    assert_eq!(t.elapsed_ms, 600);
    assert!(!t.tick(1000));
    assert_eq!(t.elapsed_ms, 600);
}
