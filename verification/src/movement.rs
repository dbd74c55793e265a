//! Movement intents: the direction in which an actor wants to go.

use vstd::prelude::*;
use crate::space::{dist, dist_sq, distance, is_floor_sqrt, lemma_floor_sqrt_exists, Point};

verus! {

/// A direction, each component in thousandths. An intent that points at a
/// target has components between -1000 and 1000.
#[derive(Clone, Copy, Debug, PartialEq, Eq, Structural)]
pub struct Moving {
    pub dx: i32,
    pub dy: i32,
}

/// `v / d` in thousandths, rounded towards zero.
pub open spec fn scaled(v: int, d: int) -> int {
    if v >= 0 {
        v * 1000 / d
    } else {
        -((-v) * 1000 / d)
    }
}

/// The direction from `from` to `to`: the offset divided by the distance, or
/// zero where the two are less than one unit apart.
pub open spec fn heading(from: Point, to: Point) -> Moving {
    let d = dist(from, to) as int;
    if d == 0 {
        Moving { dx: 0, dy: 0 }
    } else {
        Moving { dx: scaled(to.x - from.x, d) as i32, dy: scaled(to.y - from.y, d) as i32 }
    }
}

/// The opposite direction.
pub open spec fn reversed(m: Moving) -> Moving {
    Moving { dx: (-m.dx) as i32, dy: (-m.dy) as i32 }
}

/// Whether both components lie between -1000 and 1000.
pub open spec fn within_unit(m: Moving) -> bool {
    &&& -1000 <= m.dx <= 1000
    &&& -1000 <= m.dy <= 1000
}

/// A component of an offset is no longer than the offset's rounded-down
/// length.
proof fn lemma_component_bound(v: int, w: int, d: int)
    requires
        d >= 0,
        v * v + w * w < (d + 1) * (d + 1),
    ensures
        -d <= v <= d,
{
    assert(w * w >= 0) by (nonlinear_arith);
    if v > d {
        assert(v * v >= (d + 1) * (d + 1)) by (nonlinear_arith)
            requires
                v >= d + 1,
                d >= 0,
        ;
    }
    if v < -d {
        assert(v * v >= (d + 1) * (d + 1)) by (nonlinear_arith)
            requires
                -v >= d + 1,
                d >= 0,
        ;
    }
}

/// A component divided by a length that bounds it lies between -1000 and
/// 1000.
proof fn lemma_scaled_bound(v: int, d: int)
    requires
        d > 0,
        -d <= v <= d,
    ensures
        -1000 <= scaled(v, d) <= 1000,
{
    let a = if v >= 0 {
        v
    } else {
        -v
    };
    assert(0 <= a * 1000 / d <= 1000) by (nonlinear_arith)
        requires
            0 <= a <= d,
            d > 0,
    ;
}

/// Headings have components between -1000 and 1000.
pub proof fn lemma_heading_within_unit(from: Point, to: Point)
    ensures
        within_unit(heading(from, to)),
{
    let n = dist_sq(from, to);
    let d = dist(from, to);
    assert(exists|r: nat| is_floor_sqrt(n, r)) by {
        lemma_floor_sqrt_exists(n);
    }
    assert(is_floor_sqrt(n, d));
    if d > 0 {
        let v = to.x - from.x;
        let w = to.y - from.y;
        assert((from.x - to.x) * (from.x - to.x) == v * v) by (nonlinear_arith)
            requires
                v == to.x - from.x,
        ;
        assert((from.y - to.y) * (from.y - to.y) == w * w) by (nonlinear_arith)
            requires
                w == to.y - from.y,
        ;
        assert(w * w + v * v == v * v + w * w);
        lemma_component_bound(v, w, d as int);
        lemma_component_bound(w, v, d as int);
        lemma_scaled_bound(v, d as int);
        lemma_scaled_bound(w, d as int);
    }
}

/// Divides one offset component by the distance `d`, in thousandths.
fn scale_component(v: i64, d: u64) -> (r: i32)
    requires
        d > 0,
        -d <= v <= d,
    ensures
        r == scaled(v as int, d as int),
        -1000 <= r <= 1000,
{
    proof {
        lemma_scaled_bound(v as int, d as int);
    }
    if v >= 0 {
        let q: u128 = (v as u128 * 1000) / (d as u128);
        q as i32
    } else {
        let a: u128 = (-(v as i128)) as u128;
        let q: u128 = (a * 1000) / (d as u128);
        -(q as i32)
    }
}

/// Computes the direction from `from` to `to`.
pub fn heading_to(from: Point, to: Point) -> (r: Moving)
    ensures
        r == heading(from, to),
        within_unit(r),
{
    let d: u64 = distance(from, to);
    if d == 0 {
        Moving { dx: 0, dy: 0 }
    } else {
        let v: i64 = to.x as i64 - from.x as i64;
        let w: i64 = to.y as i64 - from.y as i64;
        proof {
            assert((from.x - to.x) * (from.x - to.x) == v * v) by (nonlinear_arith)
                requires
                    v == to.x - from.x,
            ;
            assert((from.y - to.y) * (from.y - to.y) == w * w) by (nonlinear_arith)
                requires
                    w == to.y - from.y,
            ;
            assert(w * w + v * v == v * v + w * w);
            lemma_component_bound(v as int, w as int, d as int);
            lemma_component_bound(w as int, v as int, d as int);
        }
        Moving { dx: scale_component(v, d), dy: scale_component(w, d) }
    }
}

/// Turns a direction round.
pub(crate) fn reverse(m: Moving) -> (r: Moving)
    requires
        within_unit(m),
    ensures
        r == reversed(m),
        within_unit(r),
{
    Moving { dx: -m.dx, dy: -m.dy }
}

} // verus!
