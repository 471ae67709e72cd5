//! A three-point figure, kept for completeness of the shape family.

use vstd::prelude::*;
use crate::point::Point;

verus! {

/// Three corner points.
#[derive(Debug, Clone, Copy)]
pub struct Triangle {
    pub p1: Point,
    pub p2: Point,
    pub p3: Point,
}

} // verus!
