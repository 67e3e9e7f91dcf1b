//! Tiles of the slippy-map scheme.

use crate::mercator::{two_to, MercatorProjection, ZOOM_LEVEL_MAX};
use vstd::prelude::*;

verus! {

/// A square of the slippy-map scheme: column, row and zoom level, with the
/// side of the tile in pixels.
#[derive(Debug, Clone, Copy, PartialEq, Eq, Structural)]
pub struct Tile {
    pub tile_x: i64,
    pub tile_y: i64,
    pub zoom_level: u8,
    pub tile_size: i32,
}

impl Tile {
    pub fn new(tile_x: i64, tile_y: i64, zoom_level: u8, tile_size: i32) -> (tile: Self)
        ensures
            tile == (Tile { tile_x, tile_y, zoom_level, tile_size }),
    {
        Tile { tile_x, tile_y, zoom_level, tile_size }
    }

    /// The tile names a square of its zoom level: the zoom level is at most
    /// 62 and column and row lie in `0 .. 2^zoom_level`.
    pub open spec fn is_valid(&self) -> bool {
        &&& self.zoom_level <= ZOOM_LEVEL_MAX
        &&& 0 <= self.tile_x < two_to(self.zoom_level as nat)
        &&& 0 <= self.tile_y < two_to(self.zoom_level as nat)
    }

    /// Whether the tile names a square of its zoom level.
    pub fn check_valid(&self) -> (valid: bool)
        ensures
            valid == self.is_valid(),
    {
        if self.zoom_level > ZOOM_LEVEL_MAX {
            return false;
        }
        let count: i64 = MercatorProjection::tile_count(self.zoom_level);
        0 <= self.tile_x && self.tile_x < count && 0 <= self.tile_y && self.tile_y < count
    }
}

} // verus!
