//! Line segments and their predicates.

use vstd::prelude::*;
use crate::point::Point;

verus! {

/// An ordered pair of endpoints.
#[derive(Debug, PartialEq, Eq, Structural, Clone, Copy)]
pub struct Line {
    pub p1: Point,
    pub p2: Point,
}

/// The cross product of the vectors `o -> a` and `o -> b`.
pub open spec fn cross3(o: Point, a: Point, b: Point) -> int {
    (a.x - o.x) * (b.y - o.y) - (a.y - o.y) * (b.x - o.x)
}

/// The dot product of the direction vectors of two segments.
pub open spec fn dirs_dot(a: Line, b: Line) -> int {
    (a.p2.x - a.p1.x) * (b.p2.x - b.p1.x) + (a.p2.y - a.p1.y) * (b.p2.y - b.p1.y)
}

/// The cross product of the direction vectors of two segments.
pub open spec fn dirs_cross(a: Line, b: Line) -> int {
    (a.p2.x - a.p1.x) * (b.p2.y - b.p1.y) - (a.p2.y - a.p1.y) * (b.p2.x - b.p1.x)
}

/// Whether two segments intersect: each segment's endpoints must not lie
/// strictly on the same side of the other's supporting line. The first
/// half rejects on a strictly positive product, the second accepts on a
/// non-positive one, so touching or collinear endpoints register on at
/// least one of the two tests. A segment with an invalid endpoint never
/// intersects anything.
pub open spec fn seg_intersect(a: Line, b: Line) -> bool {
    &&& a.p1.valid && a.p2.valid && b.p1.valid && b.p2.valid
    &&& !(cross3(a.p1, a.p2, b.p1) * cross3(a.p1, a.p2, b.p2) > 0)
    &&& cross3(b.p1, b.p2, a.p1) * cross3(b.p1, b.p2, a.p2) <= 0
}

/// Whether two segments are orthogonal: valid endpoints and direction
/// vectors whose dot product is exactly zero.
pub open spec fn orthogonal(a: Line, b: Line) -> bool {
    a.p1.valid && a.p2.valid && b.p1.valid && b.p2.valid && dirs_dot(a, b) == 0
}

/// Whether two segments are parallel: valid endpoints and direction
/// vectors whose cross product is exactly zero.
pub open spec fn parallel(a: Line, b: Line) -> bool {
    a.p1.valid && a.p2.valid && b.p1.valid && b.p2.valid && dirs_cross(a, b) == 0
}

impl Line {
    /// Both endpoints within the kernel's bound.
    pub open spec fn bounded(&self) -> bool {
        self.p1.bounded() && self.p2.bounded()
    }

    /// A segment from copies of the two endpoints.
    pub fn new(p1: &Point, p2: &Point) -> (r: Line)
        ensures
            r.p1 == *p1,
            r.p2 == *p2,
    {
        Line { p1: *p1, p2: *p2 }
    }

    /// A segment of two invalid sentinel points.
    pub fn uninitialized() -> (r: Line)
        ensures
            !r.p1.valid,
            !r.p2.valid,
    {
        Line { p1: Point::uninitialized(), p2: Point::uninitialized() }
    }

    /// The two endpoints.
    pub fn points(&self) -> (r: (&Point, &Point))
        ensures
            *r.0 == self.p1,
            *r.1 == self.p2,
    {
        (&self.p1, &self.p2)
    }

    /// The segment's length, rounded down to an integer.
    pub fn length(&self) -> (r: i64)
        requires
            self.bounded(),
        ensures
            r >= 0,
            r * r <= crate::point::dist2_of(self.p1, self.p2),
            crate::point::dist2_of(self.p1, self.p2) < (r + 1) * (r + 1),
    {
        self.p1.distance(&self.p2)
    }

    /// Whether this segment intersects `line`.
    pub fn is_intersect(&self, line: &Line) -> (r: bool)
        requires
            self.bounded(),
            line.bounded(),
        ensures
            r == seg_intersect(*self, *line),
    {
        if !(self.p1.is_valid() && self.p2.is_valid() && line.p1.is_valid()
            && line.p2.is_valid()) {
            return false;
        }
        let c1 = cross3_exec(&self.p1, &self.p2, &line.p1);
        let c2 = cross3_exec(&self.p1, &self.p2, &line.p2);
        proof {
            lemma_sign_product(c1 as int, c2 as int);
        }
        if (c1 > 0 && c2 > 0) || (c1 < 0 && c2 < 0) {
            return false;
        }
        let d1 = cross3_exec(&line.p1, &line.p2, &self.p1);
        let d2 = cross3_exec(&line.p1, &line.p2, &self.p2);
        proof {
            lemma_sign_product(d1 as int, d2 as int);
        }
        !((d1 > 0 && d2 > 0) || (d1 < 0 && d2 < 0))
    }

    /// Whether this segment is orthogonal to `line`.
    pub fn is_orthogonal(&self, line: &Line) -> (r: bool)
        requires
            self.bounded(),
            line.bounded(),
        ensures
            r == orthogonal(*self, *line),
    {
        if !(self.p1.is_valid() && self.p2.is_valid() && line.p1.is_valid()
            && line.p2.is_valid()) {
            return false;
        }
        let v1 = self.p2.sub(&self.p1);
        let v2 = line.p2.sub(&line.p1);
        let d = mul_sum(v1.x, v2.x, v1.y, v2.y);
        d == 0
    }

    /// Whether this segment is parallel to `line`.
    pub fn is_parallel(&self, line: &Line) -> (r: bool)
        requires
            self.bounded(),
            line.bounded(),
        ensures
            r == parallel(*self, *line),
    {
        if !(self.p1.is_valid() && self.p2.is_valid() && line.p1.is_valid()
            && line.p2.is_valid()) {
            return false;
        }
        let v1 = self.p2.sub(&self.p1);
        let v2 = line.p2.sub(&line.p1);
        let c = mul_diff(v1.x, v2.y, v1.y, v2.x);
        c == 0
    }
}

/// Every segment with valid endpoints intersects itself: the sidedness
/// products are zero, so the inclusive second test accepts.
pub proof fn lemma_line_self_intersect(l: Line)
    requires
        l.p1.valid,
        l.p2.valid,
    ensures
        seg_intersect(l, l),
{
    let o = l.p1;
    let a = l.p2;
    let p = a.x - o.x;
    let q = a.y - o.y;
    let c1 = cross3(o, a, o);
    let c2 = cross3(o, a, a);
    assert(o.y - o.y == 0 && o.x - o.x == 0);
    assert(p * 0 - q * 0 == 0) by (nonlinear_arith);
    assert(c1 == p * 0 - q * 0);
    assert(p * q - q * p == 0) by (nonlinear_arith);
    assert(c2 == p * q - q * p);
    assert(c1 * c2 == 0) by (nonlinear_arith)
        requires
            c1 == 0,
    ;
}

/// The product of two integers is positive exactly when they are both
/// positive or both negative.
proof fn lemma_sign_product(a: int, b: int)
    ensures
        (a * b > 0) == ((a > 0 && b > 0) || (a < 0 && b < 0)),
{
    assert((a * b > 0) == ((a > 0 && b > 0) || (a < 0 && b < 0))) by (nonlinear_arith);
}

/// The cross product of `o -> a` and `o -> b`, exactly.
fn cross3_exec(o: &Point, a: &Point, b: &Point) -> (r: i128)
    requires
        o.bounded(),
        a.bounded(),
        b.bounded(),
    ensures
        r == cross3(*o, *a, *b),
{
    let ux = (a.x as i128) - (o.x as i128);
    let uy = (a.y as i128) - (o.y as i128);
    let vx = (b.x as i128) - (o.x as i128);
    let vy = (b.y as i128) - (o.y as i128);
    proof {
        crate::base::lemma_mul_bounds(ux as int, vy as int, 0x4000_0000_0000_0000);
        crate::base::lemma_mul_bounds(uy as int, vx as int, 0x4000_0000_0000_0000);
    }
    ux * vy - uy * vx
}

/// `a * b + c * d`, exactly, for bounded operands.
fn mul_sum(a: i64, b: i64, c: i64, d: i64) -> (r: i128)
    requires
        -0x4000_0000_0000_0000 <= a <= 0x4000_0000_0000_0000,
        -0x4000_0000_0000_0000 <= b <= 0x4000_0000_0000_0000,
        -0x4000_0000_0000_0000 <= c <= 0x4000_0000_0000_0000,
        -0x4000_0000_0000_0000 <= d <= 0x4000_0000_0000_0000,
    ensures
        r == a * b + c * d,
{
    proof {
        crate::base::lemma_mul_bounds(a as int, b as int, 0x4000_0000_0000_0000);
        crate::base::lemma_mul_bounds(c as int, d as int, 0x4000_0000_0000_0000);
    }
    (a as i128) * (b as i128) + (c as i128) * (d as i128)
}

/// `a * b - c * d`, exactly, for bounded operands.
fn mul_diff(a: i64, b: i64, c: i64, d: i64) -> (r: i128)
    requires
        -0x4000_0000_0000_0000 <= a <= 0x4000_0000_0000_0000,
        -0x4000_0000_0000_0000 <= b <= 0x4000_0000_0000_0000,
        -0x4000_0000_0000_0000 <= c <= 0x4000_0000_0000_0000,
        -0x4000_0000_0000_0000 <= d <= 0x4000_0000_0000_0000,
    ensures
        r == a * b - c * d,
{
    proof {
        crate::base::lemma_mul_bounds(a as int, b as int, 0x4000_0000_0000_0000);
        crate::base::lemma_mul_bounds(c as int, d as int, 0x4000_0000_0000_0000);
    }
    (a as i128) * (b as i128) - (c as i128) * (d as i128)
}

} // verus!
