//! Open point sequences; insertion order is drawing order.

use vstd::prelude::*;
use crate::point::Point;

verus! {

/// An open chain of points.
#[derive(Debug, Clone)]
pub struct Polyline {
    pub points: Vec<Point>,
}

impl Polyline {
    /// Every point within the kernel's bound.
    pub open spec fn bounded(&self) -> bool {
        forall|i: int| 0 <= i < self.points@.len() ==> (#[trigger] self.points@[i]).bounded()
    }

    /// An empty chain.
    pub fn new() -> (r: Polyline)
        ensures
            r.points@.len() == 0,
    {
        Polyline { points: Vec::new() }
    }

    /// The number of points.
    pub fn points_count(&self) -> (r: usize)
        ensures
            r == self.points@.len(),
    {
        self.points.len()
    }

    /// Appends a copy of `p`.
    pub fn append(&mut self, p: &Point)
        ensures
            final(self).points@ == old(self).points@.push(*p),
    {
        self.points.push(*p);
    }

    /// The point at index `i`.
    pub fn point(&self, i: usize) -> (r: &Point)
        requires
            i < self.points@.len(),
        ensures
            *r == self.points@[i as int],
    {
        &self.points[i]
    }

    /// All points, in insertion order.
    pub fn points(&self) -> (r: &Vec<Point>)
        ensures
            r == &self.points,
    {
        &self.points
    }

    /// The center point: the one at index `(count + 1) / 2`. For four
    /// points that is index 2; appending a fifth moves it to index 3.
    pub fn center(&self) -> (r: &Point)
        requires
            self.points@.len() >= 2,
        ensures
            *r == self.points@[((self.points@.len() + 1) / 2) as int],
    {
        let n = self.points.len();
        let idx = n - n / 2;
        proof {
            assert(idx == (self.points@.len() + 1) / 2);
        }
        &self.points[idx]
    }
}

} // verus!
