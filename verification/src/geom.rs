//! Fixed-point plane geometry for the simulation.
//!
//! World positions are pairs of `i64` milli-units: one tile is `MILLI`
//! (1000) units, so the tile at integer coordinates `(x, y)` sits at world
//! position `(1000 * x, 1000 * y)`.  Movement deltas are computed with
//! integer multiply-then-divide, and directions are unit vectors scaled to
//! `MILLI`, obtained with an integer square root.

use vstd::prelude::*;

verus! {

/// Number of milli-units in one tile.
pub const MILLI: i64 = 1000;

/// Hard bound on the magnitude of any coordinate the simulation handles.
/// Tile coordinates are `i32`, so entity positions start below
/// `2^31 * 1000 < 2_200_000_000_000`; the wide margin leaves room for agents
/// that drift past their targets without ever endangering `i64` arithmetic.
pub const POS_LIMIT: i64 = 4_000_000_000_000_000;

/// Largest tick delta, in milliseconds, the simulation accepts.  The caller
/// supplies a bounded, non-negative frame delta; one second keeps the
/// ease-toward-target movement from overshooting.
pub const MAX_TICK_MS: u64 = 1000;

/// An integer grid cell, the unit of spatial occupancy.
#[derive(Clone, Copy, PartialEq, Eq, Structural, Debug, Hash)]
pub struct Tile {
    pub x: i32,
    pub y: i32,
}

/// A world position in milli-units.
#[derive(Clone, Copy, PartialEq, Eq, Structural, Debug)]
pub struct Pos {
    pub x: i64,
    pub y: i64,
}

/// Magnitude of an integer.
pub open spec fn abs_s(a: int) -> int {
    if a >= 0 {
        a
    } else {
        -a
    }
}

impl Tile {
    pub fn new(x: i32, y: i32) -> (t: Tile)
        ensures
            t.x == x,
            t.y == y,
    {
        Tile { x, y }
    }
}

impl Pos {
    /// Every coordinate the simulation stores stays within `POS_LIMIT`.
    pub open spec fn wf(self) -> bool {
        &&& -POS_LIMIT <= self.x <= POS_LIMIT
        &&& -POS_LIMIT <= self.y <= POS_LIMIT
    }

    /// The world position of a tile's centre, in milli-units.
    pub open spec fn of_tile_s(t: Tile) -> Pos {
        Pos { x: (t.x * MILLI) as i64, y: (t.y * MILLI) as i64 }
    }

    pub fn of_tile(t: Tile) -> (p: Pos)
        ensures
            p == Pos::of_tile_s(t),
            p.wf(),
    {
        Pos { x: t.x as i64 * MILLI, y: t.y as i64 * MILLI }
    }

    /// `self` lies strictly within a box of half-width `d` around `other`,
    /// on both axes (Chebyshev distance below `d`).
    pub open spec fn within_s(self, other: Pos, d: int) -> bool {
        &&& abs_s(self.x - other.x) < d
        &&& abs_s(self.y - other.y) < d
    }

    pub fn within(self, other: Pos, d: i64) -> (r: bool)
        requires
            self.wf(),
            other.wf(),
            0 <= d,
        ensures
            r == self.within_s(other, d as int),
    {
        let dx: i64 = self.x - other.x;
        let dy: i64 = self.y - other.y;
        -dx < d && dx < d && -dy < d && dy < d
    }
}

/// Magnitude of an `i64`, as a `u64`.
pub fn abs64(a: i64) -> (r: u64)
    requires
        a != i64::MIN,
    ensures
        r == abs_s(a as int),
{
    if a < 0 {
        (-a) as u64
    } else {
        a as u64
    }
}

/// The floor of the square root of `n`: the unique `r` with
/// `r * r <= n < (r + 1) * (r + 1)`.
pub open spec fn sqrt_floor(n: nat) -> nat {
    choose|r: nat| (#[trigger] (r * r)) <= n < (r + 1) * (r + 1)
}

/// The defining property pins `sqrt_floor` down: any root candidate equals it.
pub proof fn lemma_sqrt_floor_unique(n: nat, r: nat)
    requires
        r * r <= n < (r + 1) * (r + 1),
    ensures
        r == sqrt_floor(n),
{
    let s = sqrt_floor(n);
    assert(s * s <= n < (s + 1) * (s + 1)) by {
        assert(r * r <= n < (r + 1) * (r + 1));
    }
    if r < s {
        assert((r + 1) * (r + 1) <= s * s) by (nonlinear_arith)
            requires
                r + 1 <= s,
        ;
    }
    if s < r {
        assert((s + 1) * (s + 1) <= r * r) by (nonlinear_arith)
            requires
                s + 1 <= r,
        ;
    }
}

/// Integer square root by upward scan; the bound on `n` keeps the probe
/// `(r + 1) * (r + 1)` comfortably inside `u64`.
pub fn isqrt(n: u64) -> (r: u64)
    requires
        n <= 200_000_000,
    ensures
        r == sqrt_floor(n as nat),
        r * r <= n < (r + 1) * (r + 1),
        r <= 14_143,
{
    let mut r: u64 = 0;
    loop
        invariant
            n <= 200_000_000,
            r * r <= n,
            r <= 14_143,
        ensures
            r * r <= n < (r + 1) * (r + 1),
            r <= 14_143,
        decreases 14_144 - r,
    {
        let rp: u64 = r + 1;
        proof {
            assert(rp * rp <= 14_144 * 14_144) by (nonlinear_arith)
                requires
                    rp <= 14_144,
            ;
        }
        if rp * rp > n {
            break;
        }
        proof {
            assert(r < 14_143) by (nonlinear_arith)
                requires
                    (r + 1) * (r + 1) <= n,
                    n <= 200_000_000,
            ;
        }
        r = rp;
    }
    proof {
        lemma_sqrt_floor_unique(n as nat, r as nat);
    }
    r
}

/// `a * f / 1000`, truncated toward zero, as Rust computes it on a float
/// product of a fraction `f / 1000`.
pub open spec fn mul_div_milli_s(a: int, f: int) -> int {
    if a >= 0 {
        (a * f) / 1000
    } else {
        -((-a * f) / 1000)
    }
}

/// `a * f / 1000` rounded toward zero.  For `f <= 1000` the result never
/// exceeds `a` in magnitude, and it always carries the sign of `a`.
pub fn mul_div_milli(a: i64, f: u64) -> (r: i64)
    requires
        -8_300_000_000_000_000 <= a <= 8_300_000_000_000_000,
        f <= 1000,
    ensures
        r == mul_div_milli_s(a as int, f as int),
        abs_s(r as int) <= abs_s(a as int),
        a >= 0 ==> 0 <= r <= a,
        a <= 0 ==> a <= r <= 0,
{
    let m: u64 = abs64(a);
    proof {
        assert(m * f <= 8_300_000_000_000_000 * 1000) by (nonlinear_arith)
            requires
                m <= 8_300_000_000_000_000,
                f <= 1000,
        ;
    }
    let p: u64 = m * f;
    let q: u64 = p / 1000;
    proof {
        assert(m * f <= m * 1000) by (nonlinear_arith)
            requires
                f <= 1000,
                0 <= m,
        ;
        assert(m * 1000 / 1000 == m) by (nonlinear_arith);
        assert(m * f / 1000 <= m * 1000 / 1000) by {
            vstd::arithmetic::div_mod::lemma_div_is_ordered(
                (m * f) as int,
                (m * 1000) as int,
                1000,
            );
        }
    }
    if a < 0 {
        -(q as i64)
    } else {
        q as i64
    }
}

/// One axis of the ease-toward-target movement: the new coordinate after
/// `pos - (pos - target) * dt / 1000`.
pub open spec fn step_decay_s(pos: int, target: int, dt: int) -> int {
    pos - mul_div_milli_s(pos - target, dt)
}

/// One axis of the straight-line movement: the new coordinate after
/// `pos - dir * dt / 1000`, or `pos` itself if the step would leave the
/// world bounds.
pub open spec fn step_const_s(pos: int, dir: int, dt: int) -> int {
    let next = pos - mul_div_milli_s(dir, dt);
    if -POS_LIMIT <= next <= POS_LIMIT {
        next
    } else {
        pos
    }
}

/// One axis of the ease-toward-target movement used by housed workers:
/// `pos - (pos - target) * dt / 1000`.  With `dt <= 1000` the new position
/// stays between the old one and the target.
pub fn step_axis_decay(pos: i64, target: i64, dt: u64) -> (r: i64)
    requires
        -POS_LIMIT <= pos <= POS_LIMIT,
        -POS_LIMIT <= target <= POS_LIMIT,
        dt <= MAX_TICK_MS,
    ensures
        r == step_decay_s(pos as int, target as int, dt as int),
        target <= pos ==> target <= r <= pos,
        pos <= target ==> pos <= r <= target,
{
    let delta: i64 = pos - target;
    let step: i64 = mul_div_milli(delta, dt);
    pos - step
}

/// One axis of the straight-line movement used by foraging workers:
/// `pos - dir * dt / 1000` for a milli-scaled unit direction `dir`.  If the
/// step would carry the coordinate outside `POS_LIMIT` the agent stays put.
pub fn step_axis_const(pos: i64, dir: i64, dt: u64) -> (r: i64)
    requires
        -POS_LIMIT <= pos <= POS_LIMIT,
        -MILLI <= dir <= MILLI,
        dt <= MAX_TICK_MS,
    ensures
        r == step_const_s(pos as int, dir as int, dt as int),
        -POS_LIMIT <= r <= POS_LIMIT,
{
    let step: i64 = mul_div_milli(dir, dt);
    let next: i64 = pos - step;
    if -POS_LIMIT <= next && next <= POS_LIMIT {
        next
    } else {
        pos
    }
}

/// One axis of a unit direction scaled to `MILLI`: `d * 1000 / len`, rounded
/// toward zero, where `len` is the floored length of `(d, other)`.  The zero
/// vector stays zero.
pub open spec fn unit_axis_s(d: int, other: int) -> int {
    if d == 0 && other == 0 {
        0
    } else {
        let len = sqrt_floor((d * d + other * other) as nat);
        if d >= 0 {
            (d * 1000) / (len as int)
        } else {
            -((-d * 1000) / (len as int))
        }
    }
}

/// The unit direction of the vector `(dx, dy)`, scaled to `MILLI` and rounded
/// toward zero; the zero vector gives the zero direction.  Each component is
/// at most `MILLI` in magnitude.
pub fn unit_milli(dx: i64, dy: i64) -> (r: Pos)
    requires
        -9000 <= dx <= 9000,
        -9000 <= dy <= 9000,
    ensures
        r.x == unit_axis_s(dx as int, dy as int),
        r.y == unit_axis_s(dy as int, dx as int),
        -MILLI <= r.x <= MILLI,
        -MILLI <= r.y <= MILLI,
{
    if dx == 0 && dy == 0 {
        return Pos { x: 0, y: 0 };
    }
    let ax: u64 = abs64(dx);
    let ay: u64 = abs64(dy);
    proof {
        assert(ax * ax <= 9000 * 9000 && ay * ay <= 9000 * 9000) by (nonlinear_arith)
            requires
                ax <= 9000,
                ay <= 9000,
        ;
    }
    let s: u64 = ax * ax + ay * ay;
    proof {
        assert(ax * ax == dx * dx && ay * ay == dy * dy) by (nonlinear_arith)
            requires
                ax == abs_s(dx as int),
                ay == abs_s(dy as int),
        ;
    }
    let len: u64 = isqrt(s);
    proof {
        if len == 0 {
            assert((len + 1) * (len + 1) == 1) by (nonlinear_arith)
                requires
                    len == 0,
            ;
            assert(ax * ax >= 1 || ay * ay >= 1) by (nonlinear_arith)
                requires
                    ax >= 1 || ay >= 1,
            ;
            assert(false);
        }
        assert(ax <= len && ay <= len) by (nonlinear_arith)
            requires
                ax * ax <= s,
                ay * ay <= s,
                s < (len + 1) * (len + 1),
                0 <= ax,
                0 <= ay,
                0 <= len,
        ;
        assert(len * 1000 / 1000 >= len) by (nonlinear_arith);
    }
    let ux_m: u64 = ax * 1000 / len;
    let uy_m: u64 = ay * 1000 / len;
    proof {
        assert(ax * 1000 <= len * 1000 && ay * 1000 <= len * 1000) by (nonlinear_arith)
            requires
                ax <= len,
                ay <= len,
        ;
        assert(len * 1000 / (len as int) == 1000) by (nonlinear_arith)
            requires
                len >= 1,
        ;
        vstd::arithmetic::div_mod::lemma_div_is_ordered(
            (ax * 1000) as int,
            (len * 1000) as int,
            len as int,
        );
        vstd::arithmetic::div_mod::lemma_div_is_ordered(
            (ay * 1000) as int,
            (len * 1000) as int,
            len as int,
        );
    }
    let ux: i64 = if dx < 0 {
        -(ux_m as i64)
    } else {
        ux_m as i64
    };
    let uy: i64 = if dy < 0 {
        -(uy_m as i64)
    } else {
        uy_m as i64
    };
    Pos { x: ux, y: uy }
}

} // verus!
