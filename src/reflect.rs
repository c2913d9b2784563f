//! Reflection of the ball off a paddle: the new direction depends on where the
//! ball struck the paddle, and the speed is renormalised to the ball speed.
use vstd::prelude::*;
use crate::field::{abs, floor_sqrt, is_floor_sqrt, isqrt, within_limits, Vec2, RACKET_HALF_HEIGHT};

verus! {

/// The speed of the ball, in thousandths of a unit per second.
pub const BALL_SPEED: i64 = 400_000;

/// How far the magnitude of a renormalised velocity may stray from
/// `BALL_SPEED` through fixed-point rounding: one thousandth of a unit.
pub const SPEED_TOLERANCE: i64 = 1;

/// The velocity's magnitude equals the ball speed up to the rounding tolerance.
pub open spec fn has_ball_speed(v: Vec2) -> bool {
    let sq = (v.x as int) * (v.x as int) + (v.y as int) * (v.y as int);
    (BALL_SPEED - SPEED_TOLERANCE) * (BALL_SPEED - SPEED_TOLERANCE) <= sq
        && sq <= (BALL_SPEED + SPEED_TOLERANCE) * (BALL_SPEED + SPEED_TOLERANCE)
}

/// The squared length of the reflection direction scaled by the paddle's half
/// height: (half height, contact offset `dy`).
pub open spec fn direction_sq(dy: int) -> int {
    RACKET_HALF_HEIGHT * RACKET_HALF_HEIGHT + dy * dy
}

/// `BALL_SPEED * c / r` rounded to the nearest integer, where `r` is the
/// length of the direction in thousandths (`1000 * sqrt(d)` rounded down).
pub open spec fn scaled_component(c: int, r: int) -> int {
    (2 * (BALL_SPEED * 1000 * c) + r) / (2 * r)
}

/// `m` is within one of `BALL_SPEED * c / sqrt(d)`, stated without a root.
pub open spec fn near_component(m: int, c: int, d: int) -> bool {
    &&& BALL_SPEED * BALL_SPEED * (c * c) <= (m + 1) * (m + 1) * d
    &&& m >= 1 ==> (m - 1) * (m - 1) * d <= BALL_SPEED * BALL_SPEED * (c * c)
}

/// The velocity after a reflection off the paddle at `racket_pos` of a ball at
/// `ball_pos` moving with `v`: the direction is (reversed sign of `v.x`,
/// contact offset over the paddle's half height), scaled to the ball speed and
/// rounded to the nearest thousandth.
pub open spec fn reflect_spec(v: Vec2, ball_pos: Vec2, racket_pos: Vec2) -> Vec2 {
    let dy = ball_pos.y - racket_pos.y;
    let r = floor_sqrt(1_000_000 * direction_sq(dy));
    let mx = scaled_component(RACKET_HALF_HEIGHT as int, r);
    let my = scaled_component(abs(dy), r);
    Vec2 {
        x: (if v.x < 0 { mx } else { -mx }) as i64,
        y: (if dy < 0 { -my } else { my }) as i64,
    }
}

/// Every non-negative number has a rounded-down square root.
pub proof fn lemma_floor_sqrt_exists(d: int)
    requires
        d >= 0,
    ensures
        is_floor_sqrt(floor_sqrt(d), d),
    decreases d,
{
    if d == 0 {
        assert(is_floor_sqrt(0, 0));
    } else {
        lemma_floor_sqrt_exists(d - 1);
        let r = floor_sqrt(d - 1);
        if (r + 1) * (r + 1) <= d {
            assert(d < (r + 2) * (r + 2)) by (nonlinear_arith)
                requires d - 1 < (r + 1) * (r + 1), r >= 0;
            assert(is_floor_sqrt(r + 1, d));
        } else {
            assert(is_floor_sqrt(r, d));
        }
    }
}

/// One scaled component `m` of the direction (`c` over length `sqrt(d)`),
/// computed with the root `r` of `1000000 * d`: it lies within a half (and a
/// little) of the exact value, hence within one.
proof fn lemma_component(c: int, d: int, r: int, m: int)
    requires
        0 <= c,
        c * c <= d,
        RACKET_HALF_HEIGHT * RACKET_HALF_HEIGHT <= d,
        is_floor_sqrt(r, 1_000_000 * d),
        m == scaled_component(c, r),
    ensures
        r >= 35_000_000,
        0 <= m <= BALL_SPEED,
        2 * (BALL_SPEED * 1000 * c) - r < 2 * r * m,
        2 * r * m <= 2 * (BALL_SPEED * 1000 * c) + r,
        near_component(m, c, d),
{
    let s = BALL_SPEED as int;
    let a = BALL_SPEED * 1000 * c;
    let e = 1_000_000 * d;
    assert(r >= 35_000_000) by (nonlinear_arith)
        requires e < (r + 1) * (r + 1), e >= 1_225_000_000_000_000, r >= 0;
    vstd::arithmetic::div_mod::lemma_fundamental_div_mod(2 * a + r, 2 * r);
    vstd::arithmetic::div_mod::lemma_mod_pos_bound(2 * a + r, 2 * r);
    let rem = (2 * a + r) % (2 * r);
    assert(m == (2 * a + r) / (2 * r));
    assert(2 * a + r == 2 * r * m + rem) by (nonlinear_arith)
        requires 2 * a + r == (2 * r) * m + rem;
    assert(m >= 0) by (nonlinear_arith)
        requires 2 * a + r == 2 * r * m + rem, rem < 2 * r, a >= 0, r > 0;
    // a < s (r + 1), since a^2 = s^2 10^6 c^2 <= s^2 e < s^2 (r + 1)^2.
    assert(a * a == s * s * (1_000_000 * (c * c))) by (nonlinear_arith)
        requires a == 400_000_000 * c, s == 400_000;
    assert(s * s * (1_000_000 * (c * c)) <= s * s * e) by (nonlinear_arith)
        requires c * c <= d, e == 1_000_000 * d;
    assert(a < s * (r + 1)) by (nonlinear_arith)
        requires a * a <= s * s * e, e < (r + 1) * (r + 1), a >= 0, s > 0, r >= 0;
    assert(m <= s) by (nonlinear_arith)
        requires 2 * r * m <= 2 * a + r, a < s * (r + 1), r >= 35_000_000, s == 400_000;
    // Upper: a < r (m + 1), so a^2 <= r^2 (m + 1)^2 <= e (m + 1)^2.
    assert(a * a <= e * ((m + 1) * (m + 1))) by (nonlinear_arith)
        requires 2 * a - r < 2 * r * m, r * r <= e, a >= 0, m >= 0, r > 0;
    assert(s * s * (c * c) <= (m + 1) * (m + 1) * d) by (nonlinear_arith)
        requires a * a <= e * ((m + 1) * (m + 1)), a * a == s * s * (1_000_000 * (c * c)),
            e == 1_000_000 * d;
    // Lower: (m - 1)(r + 1) <= a, so (m - 1)^2 e <= (m - 1)^2 (r + 1)^2 <= a^2.
    if m >= 1 {
        assert((m - 1) * (r + 1) <= a) by (nonlinear_arith)
            requires 2 * r * m <= 2 * a + r, m <= 400_000, r >= 35_000_000, m >= 1;
        assert((m - 1) * (m - 1) * e <= a * a) by (nonlinear_arith)
            requires 0 <= (m - 1) * (r + 1) <= a, e < (r + 1) * (r + 1), m >= 1;
        assert((m - 1) * (m - 1) * d <= s * s * (c * c)) by (nonlinear_arith)
            requires (m - 1) * (m - 1) * e <= a * a, a * a == s * s * (1_000_000 * (c * c)),
                e == 1_000_000 * d;
    }
}

/// Two scaled components, each within a half of `a / r` and `b / r` where
/// `a^2 + b^2` is `BALL_SPEED^2 e` and `r` the rounded-down root of `e`,
/// together have the ball speed up to the tolerance.
proof fn lemma_scaled_speed(a: int, b: int, e: int, r: int, x: int, y: int)
    requires
        a >= 0,
        b >= 0,
        a >= r,
        r >= 35_000_000,
        x >= 0,
        y >= 0,
        a * a + b * b == BALL_SPEED * BALL_SPEED * e,
        is_floor_sqrt(r, e),
        2 * a - r < 2 * r * x,
        2 * r * x <= 2 * a + r,
        2 * b - r < 2 * r * y,
        2 * r * y <= 2 * b + r,
    ensures
        (BALL_SPEED - SPEED_TOLERANCE) * (BALL_SPEED - SPEED_TOLERANCE) <= x * x + y * y,
        x * x + y * y <= (BALL_SPEED + SPEED_TOLERANCE) * (BALL_SPEED + SPEED_TOLERANCE),
{
    let s = BALL_SPEED as int;
    let q = a * a + b * b;
    assert(s * s * (r * r) <= q) by (nonlinear_arith)
        requires r * r <= e, q == s * s * e;
    assert(q < s * s * ((r + 1) * (r + 1))) by (nonlinear_arith)
        requires e < (r + 1) * (r + 1), q == s * s * e, s > 0;
    // 2 (a + b) < 3 s (r + 1): (a + b)^2 <= 2 q < 2 s^2 (r + 1)^2.
    assert((a + b) * (a + b) <= 2 * q) by (nonlinear_arith)
        requires q == a * a + b * b;
    assert(2 * (a + b) < 3 * (s * (r + 1))) by (nonlinear_arith)
        requires (a + b) * (a + b) < 2 * (s * s * ((r + 1) * (r + 1))), a + b >= 0, s > 0, r >= 0;
    assert(a < s * (r + 1)) by (nonlinear_arith)
        requires a * a <= q, q < s * s * ((r + 1) * (r + 1)), a >= 0, s > 0, r >= 0;
    let rr = r * r;
    let u = x * x + y * y;
    // Upper bound.
    let px = 2 * r * x;
    let py = 2 * r * y;
    assert(4 * rr * u == px * px + py * py) by (nonlinear_arith)
        requires px == 2 * r * x, py == 2 * r * y, rr == r * r, u == x * x + y * y;
    assert(px * px <= (2 * a + r) * (2 * a + r)) by (nonlinear_arith)
        requires 0 <= px <= 2 * a + r;
    assert(py * py <= (2 * b + r) * (2 * b + r)) by (nonlinear_arith)
        requires 0 <= py <= 2 * b + r;
    assert((2 * a + r) * (2 * a + r) + (2 * b + r) * (2 * b + r) == 4 * q + 4 * r * (a + b) + 2 * rr)
        by (nonlinear_arith)
        requires q == a * a + b * b, rr == r * r;
    assert(4 * q + 4 * r * (a + b) + 2 * rr < 4 * s * s * ((r + 1) * (r + 1)) + 6 * s * r * (r + 1) + 2 * rr)
        by (nonlinear_arith)
        requires q < s * s * ((r + 1) * (r + 1)), 2 * (a + b) < 3 * (s * (r + 1)), r > 0;
    assert(4 * s * s * ((r + 1) * (r + 1)) + 6 * s * r * (r + 1) + 2 * rr <= 4 * rr * ((s + 1) * (s + 1)))
        by (nonlinear_arith)
        requires s == 400_000, r >= 35_000_000, rr == r * r;
    assert(u <= (s + 1) * (s + 1)) by (nonlinear_arith)
        requires 4 * rr * u < 4 * rr * ((s + 1) * (s + 1)), rr == r * r, r > 0;
    // Lower bound.
    assert(px * px >= (2 * a - r) * (2 * a - r)) by (nonlinear_arith)
        requires 0 <= 2 * a - r < px;
    assert((2 * a - r) * (2 * a - r) == 4 * (a * a) - 4 * a * r + rr) by (nonlinear_arith)
        requires rr == r * r;
    assert(py * py >= 0) by (nonlinear_arith);
    if 2 * b >= r {
        assert(py * py >= (2 * b - r) * (2 * b - r)) by (nonlinear_arith)
            requires 0 <= 2 * b - r < py;
        assert((2 * b - r) * (2 * b - r) == 4 * (b * b) - 4 * b * r + rr) by (nonlinear_arith)
            requires rr == r * r;
        assert(4 * q - 4 * r * (a + b) + 2 * rr >= 4 * rr * ((s - 1) * (s - 1))) by (nonlinear_arith)
            requires s * s * rr <= q, 2 * (a + b) < 3 * (s * (r + 1)), s == 400_000, r >= 35_000_000,
                rr == r * r;
        assert(4 * rr * u >= 4 * rr * ((s - 1) * (s - 1))) by (nonlinear_arith)
            requires 4 * rr * u == px * px + py * py, px * px >= (2 * a - r) * (2 * a - r),
                py * py >= (2 * b - r) * (2 * b - r),
                (2 * a - r) * (2 * a - r) == 4 * (a * a) - 4 * a * r + rr,
                (2 * b - r) * (2 * b - r) == 4 * (b * b) - 4 * b * r + rr,
                q == a * a + b * b,
                4 * q - 4 * r * (a + b) + 2 * rr >= 4 * rr * ((s - 1) * (s - 1));
    } else {
        assert(4 * (b * b) < rr) by (nonlinear_arith)
            requires 0 <= 2 * b < r, rr == r * r;
        assert(4 * (a * a) - 4 * a * r + rr >= 4 * rr * ((s - 1) * (s - 1))) by (nonlinear_arith)
            requires 4 * (s * s * rr) <= 4 * (a * a) + rr, a < s * (r + 1), s == 400_000,
                r >= 35_000_000, rr == r * r, a >= 0;
        assert(4 * rr * u >= 4 * rr * ((s - 1) * (s - 1))) by (nonlinear_arith)
            requires 4 * rr * u == px * px + py * py, py * py >= 0, px * px >= (2 * a - r) * (2 * a - r),
                (2 * a - r) * (2 * a - r) == 4 * (a * a) - 4 * a * r + rr,
                4 * (a * a) - 4 * a * r + rr >= 4 * rr * ((s - 1) * (s - 1));
    }
    assert(u >= (s - 1) * (s - 1)) by (nonlinear_arith)
        requires 4 * rr * u >= 4 * rr * ((s - 1) * (s - 1)), rr == r * r, r > 0;
}

/// A reflection gives the ball its speed, up to rounding, sends it back
/// horizontally (rightward if it moved left, leftward otherwise), and each
/// component is within a thousandth of the exact normalised direction.
pub proof fn lemma_reflection_speed(v: Vec2, ball_pos: Vec2, racket_pos: Vec2)
    requires
        within_limits(ball_pos),
        within_limits(racket_pos),
    ensures
        has_ball_speed(reflect_spec(v, ball_pos, racket_pos)),
        within_limits(reflect_spec(v, ball_pos, racket_pos)),
        v.x < 0 ==> reflect_spec(v, ball_pos, racket_pos).x > 0,
        v.x >= 0 ==> reflect_spec(v, ball_pos, racket_pos).x < 0,
        near_component(
            abs(reflect_spec(v, ball_pos, racket_pos).x as int),
            RACKET_HALF_HEIGHT as int,
            direction_sq(ball_pos.y - racket_pos.y),
        ),
        near_component(
            abs(reflect_spec(v, ball_pos, racket_pos).y as int),
            abs(ball_pos.y - racket_pos.y),
            direction_sq(ball_pos.y - racket_pos.y),
        ),
{
    let h = RACKET_HALF_HEIGHT as int;
    let dy = ball_pos.y - racket_pos.y;
    let m = abs(dy);
    let d = direction_sq(dy);
    assert(dy * dy == m * m) by (nonlinear_arith)
        requires m == dy || m == -dy;
    assert(m * m >= 0) by (nonlinear_arith);
    assert(m * m <= 4_000_000_000_000_000_000) by (nonlinear_arith)
        requires 0 <= m <= 2_000_000_000;
    let e = 1_000_000 * d;
    lemma_floor_sqrt_exists(e);
    let r = floor_sqrt(e);
    let mx = scaled_component(h, r);
    let my = scaled_component(m, r);
    lemma_component(h, d, r, mx);
    lemma_component(m, d, r, my);
    let a = BALL_SPEED * 1000 * h;
    let b = BALL_SPEED * 1000 * m;
    assert(r <= 2_100_000_000_000) by (nonlinear_arith)
        requires r * r <= e, e <= 4_100_000_000_000_000_000_000_000, r >= 0;
    assert(a * a + b * b == BALL_SPEED * BALL_SPEED * e) by (nonlinear_arith)
        requires a == 400_000_000 * 35_000, b == 400_000_000 * m, e == 1_000_000 * (35_000 * 35_000 + m * m);
    lemma_scaled_speed(a, b, e, r, mx, my);
    assert(mx > 0) by (nonlinear_arith)
        requires 2 * a - r < 2 * r * mx, a == 14_000_000_000_000, 0 <= r <= 2_100_000_000_000;
    let res = reflect_spec(v, ball_pos, racket_pos);
    let x: int = if v.x < 0 { mx } else { -mx };
    let y: int = if dy < 0 { -my } else { my };
    assert(res.x == x && res.y == y);
    assert(x * x == mx * mx) by (nonlinear_arith)
        requires x == mx || x == -mx;
    assert(y * y == my * my) by (nonlinear_arith)
        requires y == my || y == -my;
}

/// The velocity of a ball at `ball_pos` moving with `v` after it bounces off
/// the paddle whose centre is at `racket_pos`.
pub fn reflected_velocity(v: Vec2, ball_pos: Vec2, racket_pos: Vec2) -> (r: Vec2)
    requires
        within_limits(ball_pos),
        within_limits(racket_pos),
    ensures
        r == reflect_spec(v, ball_pos, racket_pos),
        has_ball_speed(r),
        within_limits(r),
        v.x < 0 ==> r.x > 0,
        v.x >= 0 ==> r.x < 0,
        near_component(abs(r.x as int), RACKET_HALF_HEIGHT as int, direction_sq(ball_pos.y - racket_pos.y)),
        near_component(abs(r.y as int), abs(ball_pos.y - racket_pos.y), direction_sq(ball_pos.y - racket_pos.y)),
{
    proof {
        lemma_reflection_speed(v, ball_pos, racket_pos);
    }
    let dy: i64 = ball_pos.y - racket_pos.y;
    let m: u128 = if dy < 0 { (0 - dy) as u128 } else { dy as u128 };
    let h: u128 = RACKET_HALF_HEIGHT as u128;
    proof {
        assert((m as int) * (m as int) <= 4_000_000_000_000_000_000) by (nonlinear_arith)
            requires 0 <= m <= 2_000_000_000;
        assert(dy * dy == (m as int) * (m as int)) by (nonlinear_arith)
            requires m as int == dy || m as int == -dy;
    }
    let d: u128 = h * h + m * m;
    let root: u128 = isqrt(1_000_000 * d);
    proof {
        let (ri, di) = (root as int, d as int);
        assert(ri > 0) by (nonlinear_arith)
            requires 1_000_000 * di < (ri + 1) * (ri + 1), di >= 1_225_000_000, ri >= 0;
        assert(ri <= 2_100_000_000_000) by (nonlinear_arith)
            requires ri * ri <= 1_000_000 * di, di <= 4_100_000_000_000_000_000, ri >= 0;
    }
    let speed: u128 = 400_000_000;
    let mx: u128 = (2 * (speed * h) + root) / (2 * root);
    let my: u128 = (2 * (speed * m) + root) / (2 * root);
    let x: i64 = if v.x < 0 { mx as i64 } else { -(mx as i64) };
    let y: i64 = if dy < 0 { -(my as i64) } else { my as i64 };
    Vec2 { x, y }
}

} // verus!
