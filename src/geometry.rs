//! Integer points in the drawing plane and the distance tests used for snapping.

use vstd::prelude::*;

verus! {

/// A position in the drawing plane, in whole length units.
#[derive(Clone, Copy, Debug, PartialEq, Eq, Structural)]
pub struct Point {
    pub x: i32,
    pub y: i32,
}

/// The difference between two points; wide enough to hold any such difference.
#[derive(Clone, Copy, Debug, PartialEq, Eq, Structural)]
pub struct Offset {
    pub dx: i64,
    pub dy: i64,
}

/// Placements closer than this to an existing node reuse that node.
pub const SNAP_RADIUS: u128 = 12;

/// Square of the Euclidean distance between two points.
pub open spec fn dist2(p: Point, q: Point) -> int {
    (p.x - q.x) * (p.x - q.x) + (p.y - q.y) * (p.y - q.y)
}

/// Whether `q` lies strictly inside the snap radius around `p`.
pub open spec fn near(p: Point, q: Point) -> bool {
    dist2(p, q) < SNAP_RADIUS * SNAP_RADIUS
}

/// A coordinate brought back into the range of `i32`.
pub open spec fn clamp_coord(v: int) -> i32 {
    if v < i32::MIN {
        i32::MIN
    } else if v > i32::MAX {
        i32::MAX
    } else {
        v as i32
    }
}

/// The point `p` moved by `o`, each coordinate saturated at the edge of the plane.
pub open spec fn shifted(p: Point, o: Offset) -> Point {
    Point { x: clamp_coord(p.x + o.dx), y: clamp_coord(p.y + o.dy) }
}

/// The offset that leads from `from` to `to`.
pub open spec fn offset_spec(from: Point, to: Point) -> Offset {
    Offset { dx: (to.x - from.x) as i64, dy: (to.y - from.y) as i64 }
}

proof fn lemma_square_bound(d: int)
    requires
        -0x1_0000_0000 < d < 0x1_0000_0000,
    ensures
        0 <= d * d < 0x1_0000_0000_0000_0000,
{
    assert(0 <= d * d < 0x1_0000_0000_0000_0000) by (nonlinear_arith)
        requires
            -0x1_0000_0000 < d < 0x1_0000_0000,
    ;
}

fn square_diff(a: i32, b: i32) -> (r: u128)
    ensures
        r == (a - b) * (a - b),
        r < 0x1_0000_0000_0000_0000,
{
    let d: i128 = a as i128 - b as i128;
    proof {
        lemma_square_bound(d as int);
    }
    (d * d) as u128
}

/// Square of the distance between `p` and `q`, computed exactly.
pub fn distance_squared(p: Point, q: Point) -> (r: u128)
    ensures
        r == dist2(p, q),
{
    square_diff(p.x, q.x) + square_diff(p.y, q.y)
}

/// Whether `q` is within the snap radius of `p`.
pub fn is_near(p: Point, q: Point) -> (r: bool)
    ensures
        r == near(p, q),
{
    distance_squared(p, q) < SNAP_RADIUS * SNAP_RADIUS
}

/// The offset from `from` to `to`.
pub fn offset_between(from: Point, to: Point) -> (r: Offset)
    ensures
        r == offset_spec(from, to),
        r.dx == to.x - from.x,
        r.dy == to.y - from.y,
{
    Offset { dx: to.x as i64 - from.x as i64, dy: to.y as i64 - from.y as i64 }
}

fn clamp_to_coord(v: i128) -> (r: i32)
    ensures
        r == clamp_coord(v as int),
{
    if v < i32::MIN as i128 {
        i32::MIN
    } else if v > i32::MAX as i128 {
        i32::MAX
    } else {
        v as i32
    }
}

/// `p` moved by `o`, saturated at the edge of the plane.
pub fn translate(p: Point, o: Offset) -> (r: Point)
    ensures
        r == shifted(p, o),
{
    Point {
        x: clamp_to_coord(p.x as i128 + o.dx as i128),
        y: clamp_to_coord(p.y as i128 + o.dy as i128),
    }
}

/// The square of a distance is never negative and fits in 65 bits.
pub proof fn lemma_dist2_range(p: Point, q: Point)
    ensures
        0 <= dist2(p, q) < 0x2_0000_0000_0000_0000,
{
    lemma_square_bound(p.x - q.x);
    lemma_square_bound(p.y - q.y);
}

/// A point is at distance zero from itself, so it is near itself.
pub proof fn lemma_near_self(p: Point)
    ensures
        dist2(p, p) == 0,
        near(p, p),
{
}

} // verus!
