//! Axis-aligned rectangles given by their min and max corners.

use vstd::prelude::*;
use crate::base::{trunc_div, half};
use crate::point::Point;

verus! {

/// An axis-aligned rectangle; the caller is responsible for putting the
/// lesser corner in `min`.
#[derive(Debug, PartialEq, Eq, Structural, Clone, Copy)]
pub struct Rectangle {
    pub min: Point,
    pub max: Point,
}

/// Whether both corners hold values.
pub open spec fn rect_valid(r: Rectangle) -> bool {
    r.min.valid && r.max.valid
}

/// Whether two rectangles intersect; touching counts, and a rectangle
/// with an invalid corner intersects nothing.
pub open spec fn rect_intersect(a: Rectangle, b: Rectangle) -> bool {
    &&& rect_valid(a) && rect_valid(b)
    &&& a.max.x >= b.min.x && a.max.y >= b.min.y && a.min.x <= b.max.x && a.min.y <= b.max.y
}

impl Rectangle {
    /// All corner coordinates within the kernel's bound.
    pub open spec fn bounded(&self) -> bool {
        self.min.bounded() && self.max.bounded()
    }

    /// A rectangle from copies of the two corners.
    pub fn new(min: &Point, max: &Point) -> (r: Rectangle)
        ensures
            r.min == *min,
            r.max == *max,
    {
        Rectangle { min: *min, max: *max }
    }

    /// A rectangle of two invalid sentinel corners; it intersects nothing
    /// and has no area.
    pub fn uninitialized() -> (r: Rectangle)
        ensures
            !r.min.valid,
            !r.max.valid,
    {
        Rectangle { min: Point::uninitialized(), max: Point::uninitialized() }
    }

    /// Whether this rectangle intersects `rect`, inclusively.
    pub fn is_intersect(&self, rect: &Rectangle) -> (r: bool)
        ensures
            r == rect_intersect(*self, *rect),
    {
        self.min.is_valid() && self.max.is_valid() && rect.min.is_valid() && rect.max.is_valid()
            && self.max.x >= rect.min.x && self.max.y >= rect.min.y && self.min.x <= rect.max.x
            && self.min.y <= rect.max.y
    }

    /// The signed area, or nothing when a corner is invalid; negative
    /// when the corners are inverted.
    pub fn area(&self) -> (r: Option<i128>)
        requires
            self.bounded(),
        ensures
            r is Some <==> rect_valid(*self),
            r is Some ==> r->0 == (self.max.x - self.min.x) * (self.max.y - self.min.y),
    {
        if self.min.is_valid() && self.max.is_valid() {
            proof {
                crate::base::lemma_mul_bounds(
                    self.max.x - self.min.x,
                    self.max.y - self.min.y,
                    0x4000_0000_0000_0000,
                );
            }
            Some(
                ((self.max.x as i128) - (self.min.x as i128)) * ((self.max.y as i128) - (
                self.min.y as i128)),
            )
        } else {
            None
        }
    }

    /// The horizontal extent.
    pub fn width(&self) -> (r: i64)
        requires
            self.bounded(),
        ensures
            r == self.max.x - self.min.x,
    {
        self.max.x - self.min.x
    }

    /// The vertical extent.
    pub fn height(&self) -> (r: i64)
        requires
            self.bounded(),
        ensures
            r == self.max.y - self.min.y,
    {
        self.max.y - self.min.y
    }

    /// The geometric center, each coordinate rounded toward zero; valid
    /// only when both corners are.
    pub fn center(&self) -> (r: Point)
        requires
            self.bounded(),
        ensures
            r.x == trunc_div(self.min.x + self.max.x, 2),
            r.y == trunc_div(self.min.y + self.max.y, 2),
            r.valid == rect_valid(*self),
    {
        let sx = self.min.x + self.max.x;
        let sy = self.min.y + self.max.y;
        Point { x: half(sx), y: half(sy), valid: self.min.is_valid() && self.max.is_valid() }
    }
}

/// Rectangle intersection is symmetric.
pub proof fn lemma_rect_intersect_symmetric(a: Rectangle, b: Rectangle)
    ensures
        rect_intersect(a, b) == rect_intersect(b, a),
{
}

/// A rectangle with an invalid corner intersects nothing, in either
/// order: invalid geometry is culled, never drawn.
pub proof fn lemma_invalid_rect_intersects_nothing(a: Rectangle, b: Rectangle)
    requires
        !a.min.valid || !a.max.valid,
    ensures
        !rect_intersect(a, b),
        !rect_intersect(b, a),
{
}

} // verus!
