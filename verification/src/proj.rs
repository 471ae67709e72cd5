//! The projection family and the integer part of tile addressing.
//!
//! The latitude/longitude mapping itself is floating-point work and
//! lives with the caller; what the kernel owns is the pixel-space tile
//! grid: one tile spans `TILE_SIZE` pixels, held here in thousandths of
//! a pixel.

use vstd::prelude::*;
use crate::point::Point;
use crate::rectangle::Rectangle;

verus! {

/// The pixel edge length of one tile.
pub const TILE_SIZE: i64 = 256;

/// Thousandths of a pixel per pixel: the kernel's coordinate scale.
pub const COORD_SCALE: i64 = 1000;

/// One tile's edge in kernel coordinates.
pub const TILE_SPAN: i64 = 256 * 1000;

/// Tile columns and rows must stay below this bound so that tile corner
/// coordinates stay within the kernel's range.
pub const TILE_INDEX_LIMIT: u64 = 0x800_0000_0000;

/// The supported projections; a single spherical Mercator variant.
#[derive(Debug, PartialEq, Eq, Structural, Clone, Copy)]
pub enum Proj {
    WGS84,
}

impl Proj {
    /// The projection used when none is chosen.
    pub fn default() -> (r: Proj)
        ensures
            r == Proj::WGS84,
    {
        Proj::WGS84
    }

    /// The pixel-space rectangle of the tile in column `x`, row `y`: its
    /// max corner is exactly its min corner shifted by one tile span in
    /// each direction.
    pub fn tile_rect(&self, x: u64, y: u64) -> (r: Rectangle)
        requires
            x < TILE_INDEX_LIMIT,
            y < TILE_INDEX_LIMIT,
        ensures
            r.min.x == x * TILE_SPAN,
            r.min.y == y * TILE_SPAN,
            r.max.x == r.min.x + TILE_SPAN,
            r.max.y == r.min.y + TILE_SPAN,
            r.min.valid && r.max.valid,
            r.bounded(),
    {
        let min = Point::new((x as i64) * TILE_SPAN, (y as i64) * TILE_SPAN);
        let max = Point::new((x as i64 + 1) * TILE_SPAN, (y as i64 + 1) * TILE_SPAN);
        Rectangle::new(&min, &max)
    }
}

} // verus!
