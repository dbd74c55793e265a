//! Integer plane geometry: points, cell keys of the uniform grid, exact
//! squared distances and their integer square roots.
//!
//! Coordinates are whole world units. Distances are rounded down to a whole
//! unit, so every comparison the engine makes is exact arithmetic on integers.

use vstd::prelude::*;

verus! {

/// Edge length of one square grid cell, in world units.
pub const CELL_SIZE: i32 = 500;

/// A position in the plane.
#[derive(Clone, Copy, Debug, PartialEq, Eq, Structural)]
pub struct Point {
    pub x: i32,
    pub y: i32,
}

/// Key of a grid cell: the pair of per-axis cell indices.
#[derive(Clone, Copy, Debug, PartialEq, Eq, Structural)]
pub struct Cell {
    pub cx: i32,
    pub cy: i32,
}

/// Index of the cell that holds coordinate `c` on one axis: `c / CELL_SIZE`
/// rounded towards negative infinity.
pub open spec fn cell_index(c: int) -> int {
    c / (CELL_SIZE as int)
}

/// The cell that holds point `p`.
pub open spec fn cell_at(p: Point) -> Cell {
    Cell { cx: cell_index(p.x as int) as i32, cy: cell_index(p.y as int) as i32 }
}

/// Whether `b` lies in the three-by-three block of cells centred on `a`.
pub open spec fn adjacent(a: Cell, b: Cell) -> bool {
    &&& a.cx - 1 <= b.cx <= a.cx + 1
    &&& a.cy - 1 <= b.cy <= a.cy + 1
}

/// Squared Euclidean distance between two points.
pub open spec fn dist_sq(a: Point, b: Point) -> nat {
    ((a.x - b.x) * (a.x - b.x) + (a.y - b.y) * (a.y - b.y)) as nat
}

/// `r` is the square root of `n` rounded down.
pub open spec fn is_floor_sqrt(n: nat, r: nat) -> bool {
    r * r <= n < (r + 1) * (r + 1)
}

/// The square root of `n` rounded down.
pub open spec fn floor_sqrt(n: nat) -> nat {
    choose|r: nat| is_floor_sqrt(n, r)
}

/// Distance between two points, rounded down to a whole unit.
pub open spec fn dist(a: Point, b: Point) -> nat {
    floor_sqrt(dist_sq(a, b))
}

/// Every number has a rounded-down square root.
pub proof fn lemma_floor_sqrt_exists(n: nat)
    ensures
        exists|r: nat| is_floor_sqrt(n, r),
    decreases n,
{
    if n == 0 {
        assert(is_floor_sqrt(0, 0)) by (nonlinear_arith);
    } else {
        let m = (n - 1) as nat;
        lemma_floor_sqrt_exists(m);
        let r = choose|r: nat| is_floor_sqrt(m, r);
        if n < (r + 1) * (r + 1) {
            assert(is_floor_sqrt(n, r));
        } else {
            let s = r + 1;
            assert((s + 1) * (s + 1) > s * s) by (nonlinear_arith);
            assert(is_floor_sqrt(n, s));
        }
    }
}

/// At most one number is the rounded-down square root of `n`.
pub proof fn lemma_floor_sqrt_unique(n: nat, r: nat, s: nat)
    requires
        is_floor_sqrt(n, r),
        is_floor_sqrt(n, s),
    ensures
        r == s,
{
    if r < s {
        assert((r + 1) * (r + 1) <= s * s) by (nonlinear_arith)
            requires
                r + 1 <= s,
        ;
    }
    if s < r {
        assert((s + 1) * (s + 1) <= r * r) by (nonlinear_arith)
            requires
                s + 1 <= r,
        ;
    }
}

/// Any number that squares to at most `n` and whose successor squares past
/// `n` is `floor_sqrt(n)`.
pub proof fn lemma_floor_sqrt_is(n: nat, r: nat)
    requires
        is_floor_sqrt(n, r),
    ensures
        floor_sqrt(n) == r,
{
    let s = floor_sqrt(n);
    assert(is_floor_sqrt(n, s));
    lemma_floor_sqrt_unique(n, r, s);
}

/// The squared distance does not depend on the order of its arguments.
pub proof fn lemma_dist_sq_symmetric(a: Point, b: Point)
    ensures
        dist_sq(a, b) == dist_sq(b, a),
{
    assert((a.x - b.x) * (a.x - b.x) == (b.x - a.x) * (b.x - a.x)) by (nonlinear_arith);
    assert((a.y - b.y) * (a.y - b.y) == (b.y - a.y) * (b.y - a.y)) by (nonlinear_arith);
}

/// A step of one cell size along one axis leads into another cell, and that
/// cell is a neighbour: it lies in the block around the cell left, as does
/// that cell itself.
pub proof fn lemma_cell_step(p: Point, q: Point)
    requires
        ((q.x == p.x + CELL_SIZE || q.x == p.x - CELL_SIZE) && q.y == p.y) || ((q.y == p.y
            + CELL_SIZE || q.y == p.y - CELL_SIZE) && q.x == p.x),
    ensures
        cell_at(q) != cell_at(p),
        adjacent(cell_at(p), cell_at(q)),
        adjacent(cell_at(p), cell_at(p)),
{
}

/// Computes the cell index of one coordinate.
pub fn cell_of_coord(c: i32) -> (r: i32)
    ensures
        r == cell_index(c as int),
        r * CELL_SIZE <= c < r * CELL_SIZE + CELL_SIZE,
{
    let q: i32 = c / CELL_SIZE;
    let m: i32 = c % CELL_SIZE;
    if m < 0 {
        q - 1
    } else {
        q
    }
}

/// Computes the cell that holds `p`.
pub fn cell_of(p: Point) -> (r: Cell)
    ensures
        r == cell_at(p),
{
    Cell { cx: cell_of_coord(p.x), cy: cell_of_coord(p.y) }
}

/// Computes the squared distance between two points.
pub fn distance_squared(a: Point, b: Point) -> (r: u128)
    ensures
        r == dist_sq(a, b),
{
    let dx: i64 = a.x as i64 - b.x as i64;
    let dy: i64 = a.y as i64 - b.y as i64;
    assert(0 <= dx * dx <= 0x1_0000_0000 * 0x1_0000_0000) by (nonlinear_arith)
        requires
            -0x1_0000_0000 <= dx <= 0x1_0000_0000,
    ;
    assert(0 <= dy * dy <= 0x1_0000_0000 * 0x1_0000_0000) by (nonlinear_arith)
        requires
            -0x1_0000_0000 <= dy <= 0x1_0000_0000,
    ;
    let sx: i128 = dx as i128 * dx as i128;
    let sy: i128 = dy as i128 * dy as i128;
    (sx + sy) as u128
}

/// Computes the square root of `n` rounded down, by bisection.
pub fn integer_sqrt(n: u128) -> (r: u64)
    ensures
        r == floor_sqrt(n as nat),
        is_floor_sqrt(n as nat, r as nat),
{
    let mut lo: u128 = 0;
    let mut hi: u128 = 0x1_0000_0000_0000_0000;
    assert(0x1_0000_0000_0000_0000 * 0x1_0000_0000_0000_0000 > u128::MAX) by (nonlinear_arith);
    while hi - lo > 1
        invariant
            lo < hi <= 0x1_0000_0000_0000_0000,
            lo * lo <= n < hi * hi,
        decreases hi - lo,
    {
        let mid: u128 = lo + (hi - lo) / 2;
        assert(mid * mid <= 0xFFFF_FFFF_FFFF_FFFF * 0xFFFF_FFFF_FFFF_FFFF) by (nonlinear_arith)
            requires
                0 <= mid <= 0xFFFF_FFFF_FFFF_FFFF,
        ;
        let sq: u128 = mid * mid;
        if sq <= n {
            lo = mid;
        } else {
            hi = mid;
        }
    }
    proof {
        lemma_floor_sqrt_is(n as nat, lo as nat);
    }
    lo as u64
}

/// Computes the distance between two points, rounded down to a whole unit.
pub fn distance(a: Point, b: Point) -> (r: u64)
    ensures
        r == dist(a, b),
        is_floor_sqrt(dist_sq(a, b), r as nat),
{
    integer_sqrt(distance_squared(a, b))
}

} // verus!
