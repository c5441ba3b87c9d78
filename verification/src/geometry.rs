//! Points, sizes and colours in whole logical pixels.

use vstd::prelude::*;

verus! {

/// A position in whole logical pixels.
#[derive(Clone, Copy, Debug, PartialEq, Eq, Structural)]
pub struct Point {
    pub x: i32,
    pub y: i32,
}

/// An extent in whole logical pixels.
#[derive(Clone, Copy, Debug, PartialEq, Eq, Structural)]
pub struct Size {
    pub width: u32,
    pub height: u32,
}

/// A stroke colour, eight bits per channel.
#[derive(Clone, Copy, Debug, PartialEq, Eq, Structural)]
pub struct Color {
    pub red: u8,
    pub green: u8,
    pub blue: u8,
    pub alpha: u8,
}

/// Squared Euclidean distance between two points.
pub open spec fn dist_sq(p: Point, q: Point) -> int {
    (p.x - q.x) * (p.x - q.x) + (p.y - q.y) * (p.y - q.y)
}

/// Whether `p` lies within `radius` of `q`, the boundary included.
pub open spec fn within(p: Point, q: Point, radius: u32) -> bool {
    dist_sq(p, q) <= radius * radius
}

/// Whether `p` lies within `radius` of some sample of `trail`.
pub open spec fn is_hit(p: Point, trail: Seq<Point>, radius: u32) -> bool {
    exists|j: int| 0 <= j < trail.len() && within(p, #[trigger] trail[j], radius)
}

/// Decides whether `p` lies within `radius` of `q`.
pub fn point_within(p: Point, q: Point, radius: u32) -> (r: bool)
    ensures
        r == within(p, q, radius),
{
    let dx: i128 = p.x as i128 - q.x as i128;
    let dy: i128 = p.y as i128 - q.y as i128;
    let reach: i128 = radius as i128;
    assert(0 <= dx * dx <= 0x1_0000_0000 * 0x1_0000_0000) by (nonlinear_arith)
        requires
            -0x1_0000_0000 <= dx <= 0x1_0000_0000,
    ;
    assert(0 <= dy * dy <= 0x1_0000_0000 * 0x1_0000_0000) by (nonlinear_arith)
        requires
            -0x1_0000_0000 <= dy <= 0x1_0000_0000,
    ;
    assert(0 <= reach * reach <= 0x1_0000_0000 * 0x1_0000_0000) by (nonlinear_arith)
        requires
            0 <= reach <= 0x1_0000_0000,
    ;
    dx * dx + dy * dy <= reach * reach
}

/// Decides whether `p` lies within `radius` of some sample of `trail`.
pub fn point_is_hit(p: Point, trail: &[Point], radius: u32) -> (r: bool)
    ensures
        r == is_hit(p, trail@, radius),
{
    let mut j: usize = 0;
    while j < trail.len()
        invariant
            j <= trail.len(),
            forall|k: int| 0 <= k < j ==> !within(p, #[trigger] trail@[k], radius),
        decreases trail.len() - j,
    {
        if point_within(p, trail[j], radius) {
            return true;
        }
        j += 1;
    }
    false
}

} // verus!
