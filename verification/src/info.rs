//! Feature records: a drawable shape with its label and bounding
//! rectangle, all already projected into pixel space.

use vstd::prelude::*;
use crate::line::Line;
use crate::point::Point;
use crate::polygon::Polygon;
use crate::polyline::Polyline;
use crate::rectangle::Rectangle;

verus! {

/// The closed set of shape variants a feature can carry.
pub enum Shape {
    Point(Point),
    Line(Line),
    Polyline(Polyline),
    Polygon(Polygon),
    Rectangle(Rectangle),
}

/// A feature's label and bounding rectangle.
#[derive(Debug, Clone)]
pub struct Info {
    pub name: String,
    pub rect: Rectangle,
}

/// One feature: a shape and its descriptive data.
pub struct Node {
    pub shape: Shape,
    pub info: Info,
}

} // verus!
