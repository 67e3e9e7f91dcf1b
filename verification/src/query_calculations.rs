//! The bitmasks that tell which child tiles of a base tile a query touches.

use crate::mercator::{lemma_two_to_monotonic, two_to, MercatorProjection};
use crate::tile::Tile;
use vstd::prelude::*;

verus! {

/// The bit of one cell of the four by four grid of second-level children
/// of a base tile.
pub open spec fn cell_bitmask(column: int, row: int) -> i32 {
    if row == 0 {
        if column == 0 {
            0x8000
        } else if column == 1 {
            0x4000
        } else if column == 2 {
            0x2000
        } else {
            0x1000
        }
    } else if row == 1 {
        if column == 0 {
            0x800
        } else if column == 1 {
            0x400
        } else if column == 2 {
            0x200
        } else {
            0x100
        }
    } else if row == 2 {
        if column == 0 {
            0x80
        } else if column == 1 {
            0x40
        } else if column == 2 {
            0x20
        } else {
            0x10
        }
    } else {
        if column == 0 {
            0x8
        } else if column == 1 {
            0x4
        } else if column == 2 {
            0x2
        } else {
            0x1
        }
    }
}

/// The bits of the four cells that one first-level child covers.
pub open spec fn quadrant_bitmask(column: int, row: int) -> i32 {
    if row == 0 {
        if column == 0 {
            0xcc00
        } else {
            0x3300
        }
    } else {
        if column == 0 {
            0xcc
        } else {
            0x33
        }
    }
}

/// The cells are numbered row by row, and the first has the highest of the
/// sixteen bits; a quadrant has the bits of its four cells.
pub proof fn lemma_cells_are_bits(column: int, row: int)
    requires
        0 <= column < 4,
        0 <= row < 4,
    ensures
        cell_bitmask(column, row) == two_to((15 - 4 * row - column) as nat),
        column < 2 && row < 2 ==> quadrant_bitmask(column, row) == cell_bitmask(
            2 * column,
            2 * row,
        ) + cell_bitmask(2 * column + 1, 2 * row) + cell_bitmask(2 * column, 2 * row + 1)
            + cell_bitmask(2 * column + 1, 2 * row + 1),
{
    reveal_with_fuel(two_to, 17);
}

/// The bits of the cells of its base tile that a tile covers, where the tile
/// lies `difference` zoom levels below the base tile: a quadrant at one level
/// below, and otherwise the cell in which the tile lies.
pub open spec fn tile_bitmask(tile_x: int, tile_y: int, difference: nat) -> i32 {
    if difference == 1 {
        quadrant_bitmask(tile_x % 2, tile_y % 2)
    } else {
        cell_bitmask(
            (tile_x / two_to((difference - 2) as nat) as int) % 4,
            (tile_y / two_to((difference - 2) as nat) as int) % 4,
        )
    }
}

/// The bitwise or of the bitmasks of the tiles of one column, from row `top`
/// to row `bottom`.
pub open spec fn column_bitmask(tile_x: int, top: int, bottom: int, difference: nat) -> i32
    decreases bottom - top + 1,
{
    if bottom < top {
        0
    } else {
        column_bitmask(tile_x, top, bottom - 1, difference) | tile_bitmask(
            tile_x,
            bottom,
            difference,
        )
    }
}

/// The bitwise or of the bitmasks of the tiles of a rectangle.
pub open spec fn range_bitmask(left: int, right: int, top: int, bottom: int, difference: nat) -> i32
    decreases right - left + 1,
{
    if right < left {
        0
    } else {
        range_bitmask(left, right - 1, top, bottom, difference) | column_bitmask(
            right,
            top,
            bottom,
            difference,
        )
    }
}

/// The bitmasks that select features of a base tile by the child tiles they
/// touch.
pub struct QueryCalculations;

impl QueryCalculations {
    /// The bitmask of one tile that lies `zoom_level_difference` levels below
    /// its base tile.
    pub fn calculate_tile_bitmask(tile: &Tile, zoom_level_difference: u8) -> (bitmask: i32)
        requires
            tile.tile_x >= 0,
            tile.tile_y >= 0,
            1 <= zoom_level_difference <= 64,
        ensures
            bitmask == tile_bitmask(
                tile.tile_x as int,
                tile.tile_y as int,
                zoom_level_difference as nat,
            ),
    {
        if zoom_level_difference == 1 {
            return Self::get_first_level_tile_bitmask(tile);
        }
        let scale: i64 = MercatorProjection::tile_count(zoom_level_difference - 2);
        proof {
            lemma_two_to_monotonic(0, (zoom_level_difference - 2) as nat);
        }
        // the second-level sub-tile in which the tile lies
        let subtile_x: i64 = tile.tile_x / scale;
        let subtile_y: i64 = tile.tile_y / scale;
        // the first-level tile in which the sub-tile lies
        let parent_tile_x: i64 = subtile_x / 2;
        let parent_tile_y: i64 = subtile_y / 2;
        if parent_tile_x % 2 == 0 && parent_tile_y % 2 == 0 {
            Self::get_second_level_tile_bitmask_upper_left(subtile_x, subtile_y)
        } else if parent_tile_x % 2 == 1 && parent_tile_y % 2 == 0 {
            Self::get_second_level_tile_bitmask_upper_right(subtile_x, subtile_y)
        } else if parent_tile_x % 2 == 0 && parent_tile_y % 2 == 1 {
            Self::get_second_level_tile_bitmask_lower_left(subtile_x, subtile_y)
        } else {
            Self::get_second_level_tile_bitmask_lower_right(subtile_x, subtile_y)
        }
    }

    /// The bitwise or of the bitmasks of all tiles from `upper_left` to
    /// `lower_right`; zero where there is none.
    pub fn calculate_tile_bitmask_range(
        upper_left: &Tile,
        lower_right: &Tile,
        zoom_level_difference: u8,
    ) -> (bitmask: i32)
        requires
            upper_left.tile_x >= 0,
            upper_left.tile_y >= 0,
            1 <= zoom_level_difference <= 64,
        ensures
            bitmask == range_bitmask(
                upper_left.tile_x as int,
                lower_right.tile_x as int,
                upper_left.tile_y as int,
                lower_right.tile_y as int,
                zoom_level_difference as nat,
            ),
    {
        let mut bitmask: i32 = 0;
        let mut x: i128 = upper_left.tile_x as i128;
        while x <= lower_right.tile_x as i128
            invariant
                1 <= zoom_level_difference <= 64,
                0 <= upper_left.tile_x <= x,
                0 <= upper_left.tile_y,
                x <= lower_right.tile_x + 1 || x == upper_left.tile_x,
                bitmask == range_bitmask(
                    upper_left.tile_x as int,
                    x - 1,
                    upper_left.tile_y as int,
                    lower_right.tile_y as int,
                    zoom_level_difference as nat,
                ),
            decreases lower_right.tile_x - x + 1,
        {
            let mut column: i32 = 0;
            let mut y: i128 = upper_left.tile_y as i128;
            while y <= lower_right.tile_y as i128
                invariant
                    1 <= zoom_level_difference <= 64,
                    0 <= upper_left.tile_x <= x <= lower_right.tile_x,
                    0 <= upper_left.tile_y <= y,
                    y <= lower_right.tile_y + 1 || y == upper_left.tile_y,
                    column == column_bitmask(
                        x as int,
                        upper_left.tile_y as int,
                        y - 1,
                        zoom_level_difference as nat,
                    ),
                decreases lower_right.tile_y - y + 1,
            {
                let current = Tile::new(
                    x as i64,
                    y as i64,
                    upper_left.zoom_level,
                    upper_left.tile_size,
                );
                column = column | Self::calculate_tile_bitmask(&current, zoom_level_difference);
                y = y + 1;
            }
            bitmask = bitmask | column;
            x = x + 1;
        }
        bitmask
    }

    fn get_first_level_tile_bitmask(tile: &Tile) -> (bitmask: i32)
        requires
            tile.tile_x >= 0,
            tile.tile_y >= 0,
        ensures
            bitmask == quadrant_bitmask(tile.tile_x as int % 2, tile.tile_y as int % 2),
    {
        if tile.tile_x % 2 == 0 && tile.tile_y % 2 == 0 {
            // upper left quadrant
            0xcc00
        } else if tile.tile_x % 2 == 1 && tile.tile_y % 2 == 0 {
            // upper right quadrant
            0x3300
        } else if tile.tile_x % 2 == 0 && tile.tile_y % 2 == 1 {
            // lower left quadrant
            0xcc
        } else {
            // lower right quadrant
            0x33
        }
    }

    fn get_second_level_tile_bitmask_lower_left(subtile_x: i64, subtile_y: i64) -> (bitmask: i32)
        requires
            subtile_x >= 0,
            subtile_y >= 0,
            (subtile_x / 2) % 2 == 0,
            (subtile_y / 2) % 2 == 1,
        ensures
            bitmask == cell_bitmask(subtile_x as int % 4, subtile_y as int % 4),
    {
        if subtile_x % 2 == 0 && subtile_y % 2 == 0 {
            // upper left sub-tile
            0x80
        } else if subtile_x % 2 == 1 && subtile_y % 2 == 0 {
            // upper right sub-tile
            0x40
        } else if subtile_x % 2 == 0 && subtile_y % 2 == 1 {
            // lower left sub-tile
            0x8
        } else {
            // lower right sub-tile
            0x4
        }
    }

    fn get_second_level_tile_bitmask_lower_right(subtile_x: i64, subtile_y: i64) -> (bitmask: i32)
        requires
            subtile_x >= 0,
            subtile_y >= 0,
            (subtile_x / 2) % 2 == 1,
            (subtile_y / 2) % 2 == 1,
        ensures
            bitmask == cell_bitmask(subtile_x as int % 4, subtile_y as int % 4),
    {
        if subtile_x % 2 == 0 && subtile_y % 2 == 0 {
            // upper left sub-tile
            0x20
        } else if subtile_x % 2 == 1 && subtile_y % 2 == 0 {
            // upper right sub-tile
            0x10
        } else if subtile_x % 2 == 0 && subtile_y % 2 == 1 {
            // lower left sub-tile
            0x2
        } else {
            // lower right sub-tile
            0x1
        }
    }

    fn get_second_level_tile_bitmask_upper_left(subtile_x: i64, subtile_y: i64) -> (bitmask: i32)
        requires
            subtile_x >= 0,
            subtile_y >= 0,
            (subtile_x / 2) % 2 == 0,
            (subtile_y / 2) % 2 == 0,
        ensures
            bitmask == cell_bitmask(subtile_x as int % 4, subtile_y as int % 4),
    {
        if subtile_x % 2 == 0 && subtile_y % 2 == 0 {
            // upper left sub-tile
            0x8000
        } else if subtile_x % 2 == 1 && subtile_y % 2 == 0 {
            // upper right sub-tile
            0x4000
        } else if subtile_x % 2 == 0 && subtile_y % 2 == 1 {
            // lower left sub-tile
            0x800
        } else {
            // lower right sub-tile
            0x400
        }
    }

    fn get_second_level_tile_bitmask_upper_right(subtile_x: i64, subtile_y: i64) -> (bitmask: i32)
        requires
            subtile_x >= 0,
            subtile_y >= 0,
            (subtile_x / 2) % 2 == 1,
            (subtile_y / 2) % 2 == 0,
        ensures
            bitmask == cell_bitmask(subtile_x as int % 4, subtile_y as int % 4),
    {
        if subtile_x % 2 == 0 && subtile_y % 2 == 0 {
            // upper left sub-tile
            0x2000
        } else if subtile_x % 2 == 1 && subtile_y % 2 == 0 {
            // upper right sub-tile
            0x1000
        } else if subtile_x % 2 == 0 && subtile_y % 2 == 1 {
            // lower left sub-tile
            0x200
        } else {
            // lower right sub-tile
            0x100
        }
    }
}

/// The bitmask of a column holds the bits of each of its tiles.
pub proof fn lemma_column_bitmask_covers(
    tile_x: int,
    top: int,
    bottom: int,
    difference: nat,
    tile_y: int,
)
    requires
        top <= tile_y <= bottom,
    ensures
        column_bitmask(tile_x, top, bottom, difference) | tile_bitmask(tile_x, tile_y, difference)
            == column_bitmask(tile_x, top, bottom, difference),
    decreases bottom - top + 1,
{
    let before = column_bitmask(tile_x, top, bottom - 1, difference);
    let last = tile_bitmask(tile_x, bottom, difference);
    let tile = tile_bitmask(tile_x, tile_y, difference);
    if tile_y == bottom {
        assert((before | last) | last == before | last) by (bit_vector);
    } else {
        lemma_column_bitmask_covers(tile_x, top, bottom - 1, difference, tile_y);
        assert((before | last) | tile == (before | tile) | last) by (bit_vector);
    }
}

/// The bitmask of a rectangle holds the bits of each of its tiles.
pub proof fn lemma_range_bitmask_covers(
    left: int,
    right: int,
    top: int,
    bottom: int,
    difference: nat,
    tile_x: int,
    tile_y: int,
)
    requires
        left <= tile_x <= right,
        top <= tile_y <= bottom,
    ensures
        range_bitmask(left, right, top, bottom, difference) | tile_bitmask(
            tile_x,
            tile_y,
            difference,
        ) == range_bitmask(left, right, top, bottom, difference),
    decreases right - left + 1,
{
    let before = range_bitmask(left, right - 1, top, bottom, difference);
    let last = column_bitmask(right, top, bottom, difference);
    let tile = tile_bitmask(tile_x, tile_y, difference);
    if tile_x == right {
        lemma_column_bitmask_covers(right, top, bottom, difference, tile_y);
        assert((before | last) | tile == before | (last | tile)) by (bit_vector);
    } else {
        lemma_range_bitmask_covers(left, right - 1, top, bottom, difference, tile_x, tile_y);
        assert((before | last) | tile == (before | tile) | last) by (bit_vector);
    }
}

} // verus!
