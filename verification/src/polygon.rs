//! Closed point sequences; the renderer closes the ring implicitly.

use vstd::prelude::*;
use crate::point::Point;

verus! {

/// The outer ring of a polygon, as appended.
#[derive(Debug, Clone)]
pub struct Polygon {
    pub points: Vec<Point>,
}

impl Polygon {
    /// Every point within the kernel's bound.
    pub open spec fn bounded(&self) -> bool {
        forall|i: int| 0 <= i < self.points@.len() ==> (#[trigger] self.points@[i]).bounded()
    }

    /// An empty ring.
    pub fn new() -> (r: Polygon)
        ensures
            r.points@.len() == 0,
    {
        Polygon { points: Vec::new() }
    }

    /// The number of points.
    pub fn points_count(&self) -> (r: usize)
        ensures
            r == self.points@.len(),
    {
        self.points.len()
    }

    /// Appends a copy of `p`.
    pub fn append(&mut self, p: &Point)
        ensures
            final(self).points@ == old(self).points@.push(*p),
    {
        self.points.push(*p);
    }

    /// The point at index `i`.
    pub fn point(&self, i: usize) -> (r: &Point)
        requires
            i < self.points@.len(),
        ensures
            *r == self.points@[i as int],
    {
        &self.points[i]
    }

    /// All points, in insertion order.
    pub fn points(&self) -> (r: &Vec<Point>)
        ensures
            r == &self.points,
    {
        &self.points
    }
}

} // verus!
