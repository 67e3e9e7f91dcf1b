//! The plan of a query: the base tiles and the blocks that it reads.

use crate::header::SubFileParameter;
use crate::mercator::{
    lemma_two_to_62,
    lemma_two_to_adds,
    lemma_two_to_monotonic,
    two_to,
    MercatorProjection,
    ZOOM_LEVEL_MAX,
};
use crate::query_calculations::{range_bitmask, QueryCalculations};
use crate::tile::Tile;
use vstd::prelude::*;

verus! {

/// The plan of a query: the rectangle of base tiles that the queried tiles
/// touch, the rectangle of blocks of the sub-file to read, and the bitmask
/// that selects features inside a base tile.
#[derive(Debug, Clone, Copy, PartialEq, Eq, Structural, Hash)]
pub struct QueryParameters {
    pub from_base_tile_x: i64,
    pub from_base_tile_y: i64,
    pub from_block_x: i64,
    pub from_block_y: i64,
    pub query_tile_bitmask: i32,
    pub query_zoom_level: i32,
    pub to_base_tile_x: i64,
    pub to_base_tile_y: i64,
    pub to_block_x: i64,
    pub to_block_y: i64,
    pub use_tile_bitmask: bool,
}

/// A column or row held into the columns or rows of a sub-file, which run
/// from zero to `last`: zero where it lies before them, `last` where it lies
/// after them, and zero where the sub-file has none.
pub open spec fn held(value: int, last: int) -> i64 {
    if value < 0 || last < 0 {
        0
    } else if value > last {
        last as i64
    } else {
        value as i64
    }
}

/// The column or row of blocks on which a base tile falls in a sub-file
/// that starts at the boundary tile `boundary` and has `blocks` columns or
/// rows.
fn block_of(base_tile: i64, boundary: i64, blocks: i64) -> (block: i64)
    ensures
        block == held(base_tile - boundary, blocks - 1),
{
    let difference: i128 = base_tile as i128 - boundary as i128;
    let last: i128 = blocks as i128 - 1;
    if difference < 0 || last < 0 {
        0
    } else if difference > last {
        last as i64
    } else {
        difference as i64
    }
}

impl QueryParameters {
    /// The plan of which every number is zero and which uses no bitmask.
    pub fn new() -> (parameters: Self)
        ensures
            parameters == (QueryParameters {
                from_base_tile_x: 0,
                from_base_tile_y: 0,
                from_block_x: 0,
                from_block_y: 0,
                query_tile_bitmask: 0,
                query_zoom_level: 0,
                to_base_tile_x: 0,
                to_base_tile_y: 0,
                to_block_x: 0,
                to_block_y: 0,
                use_tile_bitmask: false,
            }),
    {
        QueryParameters {
            from_base_tile_x: 0,
            from_base_tile_y: 0,
            from_block_x: 0,
            from_block_y: 0,
            query_tile_bitmask: 0,
            query_zoom_level: 0,
            to_base_tile_x: 0,
            to_base_tile_y: 0,
            to_block_x: 0,
            to_block_y: 0,
            use_tile_bitmask: false,
        }
    }

    /// The plan with the rectangle of base tiles that the tiles from
    /// `upper_left` to `lower_right` touch at `base_zoom_level`.
    ///
    /// Above the base zoom level of the tiles' own zoom level each tile
    /// covers a square of base tiles. Below it a tile lies inside one base
    /// tile, and the bitmask of the rectangle is used. At it the rectangles
    /// are the same.
    pub open spec fn with_base_tiles(self, upper_left: Tile, lower_right: Tile, base_zoom_level: u8)
        -> QueryParameters {
        if upper_left.zoom_level < base_zoom_level {
            let scale = two_to((base_zoom_level - upper_left.zoom_level) as nat);
            QueryParameters {
                from_base_tile_x: (upper_left.tile_x * scale) as i64,
                from_base_tile_y: (upper_left.tile_y * scale) as i64,
                to_base_tile_x: (lower_right.tile_x * scale + scale - 1) as i64,
                to_base_tile_y: (lower_right.tile_y * scale + scale - 1) as i64,
                use_tile_bitmask: false,
                ..self
            }
        } else if upper_left.zoom_level > base_zoom_level {
            let difference = (upper_left.zoom_level - base_zoom_level) as nat;
            let scale = two_to(difference) as int;
            QueryParameters {
                from_base_tile_x: (upper_left.tile_x as int / scale) as i64,
                from_base_tile_y: (upper_left.tile_y as int / scale) as i64,
                to_base_tile_x: (lower_right.tile_x as int / scale) as i64,
                to_base_tile_y: (lower_right.tile_y as int / scale) as i64,
                use_tile_bitmask: true,
                query_tile_bitmask: range_bitmask(
                    upper_left.tile_x as int,
                    lower_right.tile_x as int,
                    upper_left.tile_y as int,
                    lower_right.tile_y as int,
                    difference,
                ),
                ..self
            }
        } else {
            QueryParameters {
                from_base_tile_x: upper_left.tile_x,
                from_base_tile_y: upper_left.tile_y,
                to_base_tile_x: lower_right.tile_x,
                to_base_tile_y: lower_right.tile_y,
                use_tile_bitmask: false,
                ..self
            }
        }
    }

    /// The plan with the rectangle of blocks of the sub-file that its base
    /// tiles fall on: each side is the difference of the base tile from the
    /// sub-file's left or top boundary tile, held into the columns or rows of
    /// the sub-file. Base tiles that lie apart from the sub-file thus fall on
    /// its nearest column or row.
    pub open spec fn with_blocks(self, sub_file: SubFileParameter) -> QueryParameters {
        QueryParameters {
            from_block_x: held(
                self.from_base_tile_x - sub_file.boundary_tile_left,
                sub_file.blocks_width - 1,
            ),
            from_block_y: held(
                self.from_base_tile_y - sub_file.boundary_tile_top,
                sub_file.blocks_height - 1,
            ),
            to_block_x: held(
                self.to_base_tile_x - sub_file.boundary_tile_left,
                sub_file.blocks_width - 1,
            ),
            to_block_y: held(
                self.to_base_tile_y - sub_file.boundary_tile_top,
                sub_file.blocks_height - 1,
            ),
            ..self
        }
    }

    /// Sets the rectangle of base tiles, and the bitmask where the tiles lie
    /// below the base zoom level.
    pub fn calculate_base_tiles(
        &mut self,
        upper_left: &Tile,
        lower_right: &Tile,
        sub_file_parameter: &SubFileParameter,
    )
        requires
            upper_left.is_valid(),
            lower_right.is_valid(),
            upper_left.zoom_level == lower_right.zoom_level,
            sub_file_parameter.base_zoom_level <= ZOOM_LEVEL_MAX,
        ensures
            *final(self) == old(self).with_base_tiles(
                *upper_left,
                *lower_right,
                sub_file_parameter.base_zoom_level,
            ),
    {
        let zoom_level: u8 = upper_left.zoom_level;
        let base_zoom_level: u8 = sub_file_parameter.base_zoom_level;
        if zoom_level < base_zoom_level {
            // each tile covers several base tiles
            let zoom_level_difference: u8 = base_zoom_level - zoom_level;
            let scale: i64 = MercatorProjection::tile_count(zoom_level_difference);
            proof {
                let count = two_to(zoom_level as nat) as int;
                let whole = two_to(base_zoom_level as nat) as int;
                lemma_two_to_adds(zoom_level as nat, zoom_level_difference as nat);
                lemma_two_to_62();
                lemma_two_to_monotonic(base_zoom_level as nat, 62);
                lemma_two_to_monotonic(0, zoom_level_difference as nat);
                lemma_scaled_below(upper_left.tile_x as int, count, scale as int);
                lemma_scaled_below(upper_left.tile_y as int, count, scale as int);
                lemma_scaled_below(lower_right.tile_x as int, count, scale as int);
                lemma_scaled_below(lower_right.tile_y as int, count, scale as int);
            }
            self.from_base_tile_x = upper_left.tile_x * scale;
            self.from_base_tile_y = upper_left.tile_y * scale;
            self.to_base_tile_x = lower_right.tile_x * scale + scale - 1;
            self.to_base_tile_y = lower_right.tile_y * scale + scale - 1;
            self.use_tile_bitmask = false;
        } else if zoom_level > base_zoom_level {
            // several tiles may lie in one base tile
            let zoom_level_difference: u8 = zoom_level - base_zoom_level;
            let scale: i64 = MercatorProjection::tile_count(zoom_level_difference);
            proof {
                lemma_two_to_monotonic(0, zoom_level_difference as nat);
            }
            self.from_base_tile_x = upper_left.tile_x / scale;
            self.from_base_tile_y = upper_left.tile_y / scale;
            self.to_base_tile_x = lower_right.tile_x / scale;
            self.to_base_tile_y = lower_right.tile_y / scale;
            self.use_tile_bitmask = true;
            self.query_tile_bitmask = QueryCalculations::calculate_tile_bitmask_range(
                upper_left,
                lower_right,
                zoom_level_difference,
            );
        } else {
            // the tiles are base tiles
            self.from_base_tile_x = upper_left.tile_x;
            self.from_base_tile_y = upper_left.tile_y;
            self.to_base_tile_x = lower_right.tile_x;
            self.to_base_tile_y = lower_right.tile_y;
            self.use_tile_bitmask = false;
        }
    }

    /// As `calculate_base_tiles`, for a rectangle of more than one tile.
    pub fn calculate_base_tiles_range(
        &mut self,
        upper_left: &Tile,
        lower_right: &Tile,
        sub_file_parameter: &SubFileParameter,
    )
        requires
            upper_left.is_valid(),
            lower_right.is_valid(),
            upper_left.zoom_level == lower_right.zoom_level,
            sub_file_parameter.base_zoom_level <= ZOOM_LEVEL_MAX,
        ensures
            *final(self) == old(self).with_base_tiles(
                *upper_left,
                *lower_right,
                sub_file_parameter.base_zoom_level,
            ),
    {
        self.calculate_base_tiles(upper_left, lower_right, sub_file_parameter)
    }

    /// Sets the rectangle of blocks from the rectangle of base tiles.
    pub fn calculate_blocks(&mut self, sub_file_parameter: &SubFileParameter)
        ensures
            *final(self) == old(self).with_blocks(*sub_file_parameter),
    {
        self.from_block_x = block_of(
            self.from_base_tile_x,
            sub_file_parameter.boundary_tile_left,
            sub_file_parameter.blocks_width,
        );
        self.from_block_y = block_of(
            self.from_base_tile_y,
            sub_file_parameter.boundary_tile_top,
            sub_file_parameter.blocks_height,
        );
        self.to_block_x = block_of(
            self.to_base_tile_x,
            sub_file_parameter.boundary_tile_left,
            sub_file_parameter.blocks_width,
        );
        self.to_block_y = block_of(
            self.to_base_tile_y,
            sub_file_parameter.boundary_tile_top,
            sub_file_parameter.blocks_height,
        );
    }
}

/// The rectangle of blocks of a plan lies in the sub-file: no column or row
/// is negative, none lies past the last of a sub-file that has columns and
/// rows, and the first does not lie after the last where that is so of the
/// base tiles.
pub proof fn lemma_blocks_lie_in_the_sub_file(
    parameters: QueryParameters,
    sub_file: SubFileParameter,
)
    ensures
        ({
            let planned = parameters.with_blocks(sub_file);
            &&& 0 <= planned.from_block_x
            &&& 0 <= planned.to_block_x
            &&& 0 <= planned.from_block_y
            &&& 0 <= planned.to_block_y
            &&& sub_file.blocks_width >= 1 ==> planned.from_block_x < sub_file.blocks_width
                && planned.to_block_x < sub_file.blocks_width
            &&& sub_file.blocks_height >= 1 ==> planned.from_block_y < sub_file.blocks_height
                && planned.to_block_y < sub_file.blocks_height
            &&& parameters.from_base_tile_x <= parameters.to_base_tile_x ==> planned.from_block_x
                <= planned.to_block_x
            &&& parameters.from_base_tile_y <= parameters.to_base_tile_y ==> planned.from_block_y
                <= planned.to_block_y
        }),
{
}

/// A number below `count`, scaled, stays a whole `scale` below the scaled
/// count.
proof fn lemma_scaled_below(value: int, count: int, scale: int)
    requires
        0 <= value < count,
        scale > 0,
    ensures
        0 <= value * scale,
        value * scale + scale <= count * scale,
{
    assert(0 <= value * scale && value * scale + scale <= count * scale) by (nonlinear_arith)
        requires
            0 <= value < count,
            scale > 0,
    ;
}

} // verus!
