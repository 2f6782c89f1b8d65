//! Points, distances and headings.

use vstd::prelude::*;

verus! {

/// Angle units in half a turn. One unit is very nearly a microradian.
pub const HALF_TURN: i64 = 3_141_593;

/// Angle units in a full turn.
pub const FULL_TURN: i64 = 6_283_186;

/// A point of the plane, in thousandths of a world unit.
#[derive(Clone, Copy, Debug, PartialEq, Eq, Structural)]
pub struct Point {
    pub x: i64,
    pub y: i64,
}

/// The inclusive rectangle that agents bounce off.
#[derive(Clone, Copy, Debug, PartialEq, Eq, Structural)]
pub struct Bounds {
    pub min_x: i64,
    pub max_x: i64,
    pub min_y: i64,
    pub max_y: i64,
}

/// The squared distance between two points.
pub open spec fn dist_sq(p: Point, q: Point) -> int {
    (p.x - q.x) * (p.x - q.x) + (p.y - q.y) * (p.y - q.y)
}

/// Whether `p` lies within `radius` of `q`, the rim included.
pub open spec fn within(p: Point, q: Point, radius: int) -> bool {
    dist_sq(p, q) <= radius * radius
}

/// An angle brought into `[0, FULL_TURN)`.
pub open spec fn wrap_angle(a: int) -> int {
    a % (FULL_TURN as int)
}

/// A coordinate sum held to the range of `i64`.
pub open spec fn clamp_coord(v: int) -> int {
    if v < i64::MIN {
        i64::MIN as int
    } else if v > i64::MAX {
        i64::MAX as int
    } else {
        v
    }
}

/// The heading after bouncing off the rectangle, before wrapping: mirrored
/// across the vertical axis when `p` is beyond either horizontal bound,
/// then negated when `p` is beyond either vertical bound.
pub open spec fn reflected(heading: int, p: Point, b: Bounds) -> int {
    let h1 = if p.x > b.max_x { HALF_TURN - heading } else { heading };
    let h2 = if p.x < b.min_x { HALF_TURN - h1 } else { h1 };
    let h3 = if p.y > b.max_y { -h2 } else { h2 };
    let h4 = if p.y < b.min_y { -h3 } else { h3 };
    h4
}

proof fn lemma_square_grows(d: int, r: int)
    requires
        r >= 0,
        d > r || d < -r,
    ensures
        d * d > r * r,
{
    assert(d * d > r * r) by (nonlinear_arith)
        requires
            r >= 0,
            d > r || d < -r,
    ;
}

proof fn lemma_square_bounded(d: int, r: int)
    requires
        r >= 0,
        -r <= d <= r,
    ensures
        0 <= d * d <= r * r,
{
    assert(0 <= d * d <= r * r) by (nonlinear_arith)
        requires
            r >= 0,
            -r <= d <= r,
    ;
}

/// Tells whether `p` lies within `radius` of `q`.
pub fn in_range(p: Point, q: Point, radius: u32) -> (r: bool)
    ensures
        r == within(p, q, radius as int),
{
    let dx: i128 = p.x as i128 - q.x as i128;
    let dy: i128 = p.y as i128 - q.y as i128;
    let rad: i128 = radius as i128;
    proof {
        assert(0 <= rad * rad <= 0xffff_ffff * 0xffff_ffff) by (nonlinear_arith)
            requires
                0 <= rad <= 0xffff_ffff,
        ;
    }
    if dx > rad || dx < -rad {
        proof {
            lemma_square_grows(dx as int, rad as int);
            assert(dy * dy >= 0) by (nonlinear_arith);
        }
        false
    } else if dy > rad || dy < -rad {
        proof {
            lemma_square_grows(dy as int, rad as int);
            assert(dx * dx >= 0) by (nonlinear_arith);
        }
        false
    } else {
        proof {
            lemma_square_bounded(dx as int, rad as int);
            lemma_square_bounded(dy as int, rad as int);
        }
        dx * dx + dy * dy <= rad * rad
    }
}

/// Brings any angle into `[0, FULL_TURN)`.
pub fn wrap(a: i128) -> (r: i64)
    ensures
        r == wrap_angle(a as int),
        0 <= r < FULL_TURN,
{
    let full: i128 = FULL_TURN as i128;
    if a >= 0 {
        (a % full) as i64
    } else {
        // -(a + 1) is non-negative and cannot overflow.
        let m: i128 = (-(a + 1)) % full;
        let r: i128 = full - 1 - m;
        proof {
            lemma_wrap_negative(a as int, m as int);
        }
        r as i64
    }
}

proof fn lemma_wrap_negative(a: int, m: int)
    requires
        a < 0,
        m == (-(a + 1)) % (FULL_TURN as int),
    ensures
        a % (FULL_TURN as int) == FULL_TURN - 1 - m,
{
    let f = FULL_TURN as int;
    let n = -(a + 1);
    let q = n / f;
    assert(n == f * q + m) by {
        vstd::arithmetic::div_mod::lemma_fundamental_div_mod(n, f);
    }
    // a = -n - 1 = f * (-q - 1) + (f - 1 - m)
    assert(a == f * (-q - 1) + (f - 1 - m)) by (nonlinear_arith)
        requires
            n == f * q + m,
            a == -n - 1,
    ;
    vstd::arithmetic::div_mod::lemma_fundamental_div_mod_converse(a, f, -q - 1, f - 1 - m);
}

/// Adds a displacement to a coordinate, holding the sum to the range of
/// `i64`.
pub fn shift(v: i64, d: i64) -> (r: i64)
    ensures
        r == clamp_coord(v + d),
{
    let sum: i128 = v as i128 + d as i128;
    if sum < i64::MIN as i128 {
        i64::MIN
    } else if sum > i64::MAX as i128 {
        i64::MAX
    } else {
        sum as i64
    }
}

/// Bounces a heading off the rectangle and wraps it.
pub fn reflect(heading: i64, p: Point, b: Bounds) -> (r: i64)
    ensures
        r == wrap_angle(reflected(heading as int, p, b)),
        0 <= r < FULL_TURN,
{
    let mut h: i128 = heading as i128;
    if p.x > b.max_x {
        h = HALF_TURN as i128 - h;
    }
    if p.x < b.min_x {
        h = HALF_TURN as i128 - h;
    }
    if p.y > b.max_y {
        h = -h;
    }
    if p.y < b.min_y {
        h = -h;
    }
    wrap(h)
}

} // verus!
