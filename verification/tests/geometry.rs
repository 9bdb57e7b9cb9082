use farmstead::geom::isqrt;
use farmstead::geom::mul_div_milli;
use farmstead::geom::step_axis_const;
use farmstead::geom::step_axis_decay;
use farmstead::geom::unit_milli;
use farmstead::geom::Pos;
use farmstead::geom::Tile;

#[test]
fn isqrt_exact_squares() {
    assert_eq!(isqrt(0), 0);
    assert_eq!(isqrt(1), 1);
    assert_eq!(isqrt(4), 2);
    assert_eq!(isqrt(1_000_000), 1000);
}

#[test]
fn isqrt_rounds_down() {
    assert_eq!(isqrt(2), 1);
    assert_eq!(isqrt(3), 1);
    assert_eq!(isqrt(2_000_000), 1414);
    assert_eq!(isqrt(199_999_999), 14_142);
}

#[test]
fn unit_direction_diagonal() {
    // the vector (-1000, -1000) has length 1414; each unit component is
    // -1000 * 1000 / 1414 = -707 milli-units
    let d = unit_milli(-1000, -1000);
    assert_eq!(d.x, -707);
    assert_eq!(d.y, -707);
}

#[test]
fn unit_direction_axis_and_zero() {
    let d = unit_milli(5000, 0);
    assert_eq!(d.x, 1000);
    assert_eq!(d.y, 0);
    let z = unit_milli(0, 0);
    assert_eq!(z.x, 0);
    assert_eq!(z.y, 0);
}

#[test]
fn scaled_product_truncates_toward_zero() {
    assert_eq!(mul_div_milli(707, 100), 70);
    assert_eq!(mul_div_milli(-707, 100), -70);
    assert_eq!(mul_div_milli(1000, 1000), 1000);
    assert_eq!(mul_div_milli(999, 1), 0);
}

#[test]
fn constant_step_moves_against_direction() {
    // walking against direction 707 for 100 ms moves 70 milli-units back
    assert_eq!(step_axis_const(4000, -707, 100), 4070);
    assert_eq!(step_axis_const(4000, 707, 100), 3930);
}

#[test]
fn decay_step_stays_between_position_and_target() {
    // a full-second step lands exactly on the target
    assert_eq!(step_axis_decay(4000, 5000, 1000), 5000);
    // a 100 ms step covers a tenth of the gap
    assert_eq!(step_axis_decay(4000, 5000, 100), 4100);
    assert_eq!(step_axis_decay(5000, 4000, 100), 4900);
    assert_eq!(step_axis_decay(5000, 5000, 500), 5000);
}

#[test]
fn tile_position_is_milli_scaled() {
    let p = Pos::of_tile(Tile::new(3, -2));
    assert_eq!(p.x, 3000);
    assert_eq!(p.y, -2000);
}

#[test]
fn within_is_a_strict_chebyshev_box() {
    let a = Pos { x: 0, y: 0 };
    assert!(a.within(Pos { x: 99, y: -99 }, 100));
    assert!(!a.within(Pos { x: 100, y: 0 }, 100));
    assert!(!a.within(Pos { x: 0, y: -100 }, 100));
}
