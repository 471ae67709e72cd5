//! Points of the geometry kernel.
//!
//! A point carries two bounded integer coordinates and a validity mark;
//! an uninitialized point is the invalid sentinel, and arithmetic
//! propagates invalidity. Coordinates count thousandths of a pixel (or
//! of whatever unit the caller projects into).

use vstd::prelude::*;
use crate::base::{
    in_range, trunc_div, floor_sqrt, isqrt, lemma_floor_sqrt, lemma_mul_bounds,
    lemma_square_nonneg,
};

verus! {

/// An (x, y) pair with a validity mark standing in for the invalid
/// sentinel of floating-point data.
#[derive(Debug, PartialEq, Eq, Structural, Clone, Copy)]
pub struct Point {
    pub x: i64,
    pub y: i64,
    pub valid: bool,
}

/// The dot product of two points taken as vectors.
pub open spec fn dot_of(a: Point, b: Point) -> int {
    a.x * b.x + a.y * b.y
}

/// The two-dimensional cross product of two points taken as vectors.
pub open spec fn cross_of(a: Point, b: Point) -> int {
    a.x * b.y - a.y * b.x
}

/// The squared Euclidean distance between two points.
pub open spec fn dist2_of(a: Point, b: Point) -> int {
    (a.x - b.x) * (a.x - b.x) + (a.y - b.y) * (a.y - b.y)
}

impl Point {
    /// Both coordinates within the kernel's bound.
    pub open spec fn bounded(&self) -> bool {
        in_range(self.x as int) && in_range(self.y as int)
    }

    /// A valid point with the given coordinates.
    pub fn new(x: i64, y: i64) -> (r: Point)
        ensures
            r.x == x,
            r.y == y,
            r.valid,
    {
        Point { x, y, valid: true }
    }

    /// The invalid sentinel, for a point whose value is not yet known.
    pub fn uninitialized() -> (r: Point)
        ensures
            !r.valid,
            r.x == 0,
            r.y == 0,
    {
        Point { x: 0, y: 0, valid: false }
    }

    /// Whether the point holds a value.
    pub fn is_valid(&self) -> (r: bool)
        ensures
            r == self.valid,
    {
        self.valid
    }

    /// The coordinates as a pair.
    pub fn to_tuple(&self) -> (r: (i64, i64))
        ensures
            r.0 == self.x,
            r.1 == self.y,
    {
        (self.x, self.y)
    }

    /// The dot product with `p`.
    pub fn dot(&self, p: &Point) -> (r: i128)
        requires
            self.bounded(),
            p.bounded(),
        ensures
            r == dot_of(*self, *p),
    {
        proof {
            lemma_mul_bounds(self.x as int, p.x as int, 0x2000_0000_0000_0000);
            lemma_mul_bounds(self.y as int, p.y as int, 0x2000_0000_0000_0000);
        }
        (self.x as i128) * (p.x as i128) + (self.y as i128) * (p.y as i128)
    }

    /// The two-dimensional cross product with `p`.
    pub fn cross(&self, p: &Point) -> (r: i128)
        requires
            self.bounded(),
            p.bounded(),
        ensures
            r == cross_of(*self, *p),
    {
        proof {
            lemma_mul_bounds(self.x as int, p.y as int, 0x2000_0000_0000_0000);
            lemma_mul_bounds(self.y as int, p.x as int, 0x2000_0000_0000_0000);
        }
        (self.x as i128) * (p.y as i128) - (self.y as i128) * (p.x as i128)
    }

    /// The Euclidean distance to `p`, rounded down to an integer.
    pub fn distance(&self, p: &Point) -> (r: i64)
        requires
            self.bounded(),
            p.bounded(),
        ensures
            r >= 0,
            r * r <= dist2_of(*self, *p),
            dist2_of(*self, *p) < (r + 1) * (r + 1),
    {
        let dx = (self.x as i128) - (p.x as i128);
        let dy = (self.y as i128) - (p.y as i128);
        proof {
            lemma_mul_bounds(dx as int, dx as int, 0x4000_0000_0000_0000);
            lemma_mul_bounds(dy as int, dy as int, 0x4000_0000_0000_0000);
            lemma_square_nonneg(dx as int);
            lemma_square_nonneg(dy as int);
        }
        let sq = dx * dx + dy * dy;
        let r = isqrt(sq as u128);
        proof {
            lemma_floor_sqrt(sq as nat);
            let f = floor_sqrt(sq as nat);
            assert(f == r as nat);
            assert(f * f <= sq);
            let ri = r as int;
            let dxi = dx as int;
            let dyi = dy as int;
            let m = 0x4000_0000_0000_0000int;
            assert(ri < 2 * m) by (nonlinear_arith)
                requires
                    ri >= 0,
                    ri * ri <= dxi * dxi + dyi * dyi,
                    -m <= dxi <= m,
                    -m <= dyi <= m,
                    m > 0,
            ;
        }
        r as i64
    }

    /// Elementwise sum; valid only where both operands are.
    pub fn add(&self, p: &Point) -> (r: Point)
        requires
            i64::MIN <= self.x + p.x <= i64::MAX,
            i64::MIN <= self.y + p.y <= i64::MAX,
        ensures
            r.x == self.x + p.x,
            r.y == self.y + p.y,
            r.valid == (self.valid && p.valid),
    {
        Point { x: self.x + p.x, y: self.y + p.y, valid: self.valid && p.valid }
    }

    /// Elementwise difference; valid only where both operands are.
    pub fn sub(&self, p: &Point) -> (r: Point)
        requires
            i64::MIN <= self.x - p.x <= i64::MAX,
            i64::MIN <= self.y - p.y <= i64::MAX,
        ensures
            r.x == self.x - p.x,
            r.y == self.y - p.y,
            r.valid == (self.valid && p.valid),
    {
        Point { x: self.x - p.x, y: self.y - p.y, valid: self.valid && p.valid }
    }

    /// Elementwise product; valid only where both operands are.
    pub fn mul(&self, p: &Point) -> (r: Point)
        requires
            i64::MIN <= self.x * p.x <= i64::MAX,
            i64::MIN <= self.y * p.y <= i64::MAX,
        ensures
            r.x == self.x * p.x,
            r.y == self.y * p.y,
            r.valid == (self.valid && p.valid),
    {
        Point { x: self.x * p.x, y: self.y * p.y, valid: self.valid && p.valid }
    }

    /// Elementwise quotient, rounding toward zero; valid only where both
    /// operands are.
    pub fn div(&self, p: &Point) -> (r: Point)
        requires
            p.x != 0,
            p.y != 0,
            !(self.x == i64::MIN && p.x == -1),
            !(self.y == i64::MIN && p.y == -1),
        ensures
            r.x == trunc_div(self.x as int, p.x as int),
            r.y == trunc_div(self.y as int, p.y as int),
            r.valid == (self.valid && p.valid),
    {
        Point {
            x: div_i64(self.x, p.x),
            y: div_i64(self.y, p.y),
            valid: self.valid && p.valid,
        }
    }
}

/// Machine division of two signed values, rounding toward zero.
fn div_i64(a: i64, b: i64) -> (r: i64)
    requires
        b != 0,
        !(a == i64::MIN && b == -1),
    ensures
        r == trunc_div(a as int, b as int),
{
    let am: u64 = if a < 0 {
        (-(a as i128)) as u64
    } else {
        a as u64
    };
    let bm: u64 = if b < 0 {
        (-(b as i128)) as u64
    } else {
        b as u64
    };
    let q = am / bm;
    proof {
        let ai = a as int;
        let bi = b as int;
        let ami = am as int;
        let bmi = bm as int;
        assert(ami == if ai < 0 { -ai } else { ai });
        assert(bmi == if bi < 0 { -bi } else { bi });
        vstd::arithmetic::div_mod::lemma_div_nonincreasing(ami, bmi);
        assert(q as int == ami / bmi);
        assert(q as int <= ami);
        if (ai < 0) == (bi < 0) && ami == 0x8000_0000_0000_0000 {
            assert(bmi >= 2);
            vstd::arithmetic::div_mod::lemma_div_decreases(ami, bmi);
        }
    }
    if (a < 0) == (b < 0) {
        q as i64
    } else {
        (-(q as i128)) as i64
    }
}

} // verus!
