use vstd::prelude::*;

mod base;
mod cache;
mod numfmt;
mod point;
mod line;
mod polyline;
mod polygon;
mod rectangle;
mod triangle;
mod info;
mod proj;
mod svg;
mod xml;

pub use base::{COORD_LIMIT, isqrt, half};
pub use cache::{Cache, MemoryCache, tile_id};
pub use numfmt::{u64_to_string, i64_to_string, fmt_mpx};
pub use point::Point;
pub use line::Line;
pub use polyline::Polyline;
pub use polygon::Polygon;
pub use rectangle::Rectangle;
pub use triangle::Triangle;
pub use info::{Shape, Info, Node};
pub use proj::Proj;
pub use svg::{PolylineProps, TextProps, PolygonProps, SvgTile, ScenePrim, render_tile};
pub use xml::XmlNode;

verus! {

} // verus!
