//! Field geometry, fixed-point vectors and the integer square root used to
//! renormalise velocities.
use vstd::prelude::*;

verus! {

/// Thousandths of a field unit in one unit.
pub const UNIT: i64 = 1000;

/// Largest magnitude of any coordinate or velocity component that the
/// simulation handles (one million units).
pub const COORD_LIMIT: i64 = 1_000_000_000;

/// Half the height of a paddle.
pub const RACKET_HALF_HEIGHT: i64 = 35_000;

/// Half the height of the screen.
pub const HALF_SCREEN_HEIGHT: i64 = 240_000;

/// Vertical position beyond which the ball bounces off the top or bottom wall.
pub const WALL_Y: i64 = 200_000;

/// Horizontal position beyond which the ball has left the field.
pub const OUT_X: i64 = 310_000;

/// Vertical limit for a paddle's centre: half the screen minus half a paddle.
pub const RACKET_EDGE_Y: i64 = HALF_SCREEN_HEIGHT - RACKET_HALF_HEIGHT;

/// A point or a velocity in the plane, in thousandths of a unit
/// (per second for a velocity).
#[derive(Clone, Copy, Debug, PartialEq, Eq, Structural)]
pub struct Vec2 {
    pub x: i64,
    pub y: i64,
}

/// One side of the field: negative x is left, non-negative x is right.
#[derive(Clone, Copy, Debug, PartialEq, Eq, Structural)]
pub enum Side {
    Left,
    Right,
}

pub open spec fn abs(a: int) -> int {
    if a < 0 { -a } else { a }
}

/// Every component of the vector lies within the simulation's limits.
pub open spec fn within_limits(v: Vec2) -> bool {
    abs(v.x as int) <= COORD_LIMIT && abs(v.y as int) <= COORD_LIMIT
}

/// The side that a horizontal coordinate or velocity points to
/// (zero counts as right, as a positive zero's sign does).
pub open spec fn side_of_spec(x: i64) -> Side {
    if x < 0 { Side::Left } else { Side::Right }
}

/// The side that a horizontal coordinate or velocity points to.
pub fn side_of(x: i64) -> (r: Side)
    ensures
        r == side_of_spec(x),
{
    if x < 0 { Side::Left } else { Side::Right }
}

/// `r` is the integer square root of `n`, rounded down.
pub open spec fn is_floor_sqrt(r: int, n: int) -> bool {
    0 <= r && r * r <= n && n < (r + 1) * (r + 1)
}

/// The integer square root of `n`, rounded down.
pub open spec fn floor_sqrt(n: int) -> int {
    choose|r: int| is_floor_sqrt(r, n)
}

/// A number has at most one rounded-down square root.
pub proof fn lemma_floor_sqrt_unique(a: int, b: int, n: int)
    requires
        is_floor_sqrt(a, n),
        is_floor_sqrt(b, n),
    ensures
        a == b,
{
    if a < b {
        assert((a + 1) * (a + 1) <= b * b) by (nonlinear_arith)
            requires 0 <= a, a + 1 <= b;
    } else if b < a {
        assert((b + 1) * (b + 1) <= a * a) by (nonlinear_arith)
            requires 0 <= b, b + 1 <= a;
    }
}

/// The rounded-down square root, by bisection.
pub fn isqrt(n: u128) -> (r: u128)
    ensures
        is_floor_sqrt(r as int, n as int),
        r as int == floor_sqrt(n as int),
{
    let mut lo: u128 = 0;
    let mut hi: u128 = 18_446_744_073_709_551_616;
    while hi - lo > 1
        invariant
            lo < hi <= 18_446_744_073_709_551_616,
            (lo as int) * (lo as int) <= n as int,
            (n as int) < (hi as int) * (hi as int),
        decreases hi - lo,
    {
        let mid: u128 = lo + (hi - lo) / 2;
        proof {
            assert((mid as int) * (mid as int) < 18_446_744_073_709_551_616 * 18_446_744_073_709_551_616)
                by (nonlinear_arith)
                requires 0 <= mid < 18_446_744_073_709_551_616;
        }
        if mid * mid <= n {
            lo = mid;
        } else {
            hi = mid;
        }
    }
    proof {
        assert(is_floor_sqrt(lo as int, n as int));
        let c = floor_sqrt(n as int);
        lemma_floor_sqrt_unique(c, lo as int, n as int);
    }
    lo
}

} // verus!
