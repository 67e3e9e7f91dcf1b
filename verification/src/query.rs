//! A query as it is carried out, block by block.

use crate::block::{spec_block, spec_block_lookup, BlockLookup, BlockQuery};
use crate::errors::{ErrorKind, MapFileException};
use crate::header::SubFileParameter;
use crate::map_data::{BundleView, ResultView};
use crate::map_file::{MapFileView, Selector};
use crate::query_parameters::QueryParameters;
use crate::types::BoundingBox;
use vstd::prelude::*;

verus! {

/// The corners of the rows and columns of blocks that a query reads, and the
/// box of the queried tiles, all in micro-degrees: for each row of the
/// plan, from its first, the latitude of the row's upper edge; for each
/// column, from its first, the longitude of the column's left edge.
#[derive(Debug, Clone)]
pub struct TileGrid {
    pub bounding_box: BoundingBox,
    pub latitudes: Vec<i64>,
    pub longitudes: Vec<i64>,
}

/// What a `TileGrid` holds.
pub struct TileGridView {
    pub bounding_box: BoundingBox,
    pub latitudes: Seq<i64>,
    pub longitudes: Seq<i64>,
}

impl View for TileGrid {
    type V = TileGridView;

    open spec fn view(&self) -> TileGridView {
        TileGridView {
            bounding_box: self.bounding_box,
            latitudes: self.latitudes@,
            longitudes: self.longitudes@,
        }
    }
}

impl TileGridView {
    /// Every latitude lies within 90 degrees of the equator, every longitude
    /// within 180 degrees of the prime meridian.
    pub open spec fn is_valid(self) -> bool {
        &&& forall|i: int|
            0 <= i < self.latitudes.len() ==> -90_000_000 <= #[trigger] self.latitudes[i]
                <= 90_000_000
        &&& forall|j: int|
            0 <= j < self.longitudes.len() ==> -180_000_000 <= #[trigger] self.longitudes[j]
                <= 180_000_000
    }

    /// The grid has a latitude for every row and a longitude for every
    /// column of blocks of the plan. A plan whose last row or column lies
    /// before its first, as only one made by hand can be, has no block and
    /// needs none.
    pub open spec fn covers(self, parameters: QueryParameters) -> bool {
        parameters.to_block_y < parameters.from_block_y || parameters.to_block_x
            < parameters.from_block_x || (parameters.to_block_y - parameters.from_block_y
            < self.latitudes.len() && parameters.to_block_x - parameters.from_block_x
            < self.longitudes.len())
    }
}

impl TileGrid {
    /// The grid with the given box, latitudes of rows and longitudes of
    /// columns.
    pub fn new(bounding_box: BoundingBox, latitudes: Vec<i64>, longitudes: Vec<i64>) -> (grid:
        Self)
        ensures
            grid@ == (TileGridView {
                bounding_box,
                latitudes: latitudes@,
                longitudes: longitudes@,
            }),
    {
        TileGrid { bounding_box, latitudes, longitudes }
    }

    /// Whether every latitude and longitude is in range.
    pub fn check_valid(&self) -> (valid: bool)
        ensures
            valid == self@.is_valid(),
    {
        let mut i: usize = 0;
        while i < self.latitudes.len()
            invariant
                i <= self.latitudes@.len(),
                forall|k: int|
                    0 <= k < i ==> -90_000_000 <= #[trigger] self.latitudes@[k] <= 90_000_000,
            decreases self.latitudes@.len() - i,
        {
            if self.latitudes[i] < -90_000_000 || self.latitudes[i] > 90_000_000 {
                assert(!(-90_000_000 <= self@.latitudes[i as int] <= 90_000_000));
                return false;
            }
            i += 1;
        }
        let mut j: usize = 0;
        while j < self.longitudes.len()
            invariant
                j <= self.longitudes@.len(),
                forall|k: int|
                    0 <= k < self.latitudes@.len() ==> -90_000_000 <= #[trigger] self.latitudes@[k]
                        <= 90_000_000,
                forall|k: int|
                    0 <= k < j ==> -180_000_000 <= #[trigger] self.longitudes@[k] <= 180_000_000,
            decreases self.longitudes@.len() - j,
        {
            if self.longitudes[j] < -180_000_000 || self.longitudes[j] > 180_000_000 {
                assert(!(-180_000_000 <= self@.longitudes[j as int] <= 180_000_000));
                return false;
            }
            j += 1;
        }
        true
    }
}

/// A query for the tiles of a rectangle, as it is carried out.
pub struct Query {
    pub map: MapFileView,
    pub parameters: QueryParameters,
    pub sub_file: SubFileParameter,
    pub grid: TileGridView,
    pub selector: Selector,
}

/// What a query has gathered: the bundles of the blocks that were decoded,
/// whether every index entry seen so far says water, and whether any was
/// seen.
pub struct Progress {
    pub bundles: Seq<BundleView>,
    pub all_water: bool,
    pub any_seen: bool,
}

impl Progress {
    /// Nothing gathered.
    pub open spec fn start() -> Progress {
        Progress { bundles: Seq::empty(), all_water: true, any_seen: false }
    }

    /// After an index entry was seen.
    pub open spec fn seen(self, water: bool) -> Progress {
        Progress { all_water: self.all_water && water, any_seen: true, ..self }
    }

    /// After a block was decoded.
    pub open spec fn with(self, bundle: BundleView) -> Progress {
        Progress { bundles: self.bundles.push(bundle), ..self }
    }

    /// The answer: the area is water where an index entry was seen and every
    /// one seen says so.
    pub open spec fn result(self) -> ResultView {
        ResultView { poi_way_bundles: self.bundles, is_water: self.any_seen && self.all_water }
    }
}

/// Whether an error in a block ends the query: a marker that is missing and
/// a tag id without a tag do, every other error only drops the block.
pub open spec fn ends_query(kind: ErrorKind) -> bool {
    kind == ErrorKind::InvalidSignature || kind == ErrorKind::InvalidTagId
}

impl Query {
    /// How the block in a row and a column of the sub-file is read.
    pub open spec fn block_query(self, row: int, column: int) -> BlockQuery {
        self.map.block_query(
            self.parameters,
            self.sub_file,
            self.grid.bounding_box,
            self.grid.latitudes[row - self.parameters.from_block_y],
            self.grid.longitudes[column - self.parameters.from_block_x],
            self.selector,
        )
    }

    /// What the query has gathered after the block in a row and a column of
    /// the sub-file, whose number is the row times the number of columns
    /// plus the column.
    pub open spec fn visit(self, progress: Progress, row: int, column: int) -> Result<
        Progress,
        MapFileException,
    > {
        match spec_block_lookup(
            self.map.file,
            self.sub_file,
            row * self.sub_file.blocks_width + column,
        ) {
            BlockLookup::Unknown => Ok(progress),
            BlockLookup::Empty { water } => Ok(progress.seen(water)),
            BlockLookup::Data { water, data } => match spec_block(
                data,
                0,
                self.block_query(row, column),
            ) {
                Ok(bundle) => Ok(progress.seen(water).with(bundle)),
                Err(e) => if ends_query(e.kind) {
                    Err(e)
                } else {
                    Ok(progress.seen(water))
                },
            },
        }
    }

    /// What the query has gathered after the blocks of a row from `column`
    /// to the last column of the plan.
    pub open spec fn columns(self, progress: Progress, row: int, column: int) -> Result<
        Progress,
        MapFileException,
    >
        decreases self.parameters.to_block_x - column + 1,
    {
        if column > self.parameters.to_block_x {
            Ok(progress)
        } else {
            match self.visit(progress, row, column) {
                Err(e) => Err(e),
                Ok(next) => self.columns(next, row, column + 1),
            }
        }
    }

    /// What the query has gathered after the rows from `row` to the last
    /// row of the plan, each from the first column of the plan.
    pub open spec fn rows(self, progress: Progress, row: int) -> Result<Progress, MapFileException>
        decreases self.parameters.to_block_y - row + 1,
    {
        if row > self.parameters.to_block_y {
            Ok(progress)
        } else {
            match self.columns(progress, row, self.parameters.from_block_x as int) {
                Err(e) => Err(e),
                Ok(next) => self.rows(next, row + 1),
            }
        }
    }

    /// The answer to the query: the blocks of the plan are read row by row,
    /// from top to bottom and from left to right. A grid that is not valid
    /// or lacks a row or a column of the plan fails with `InvalidRange`.
    pub open spec fn answer(self) -> Result<ResultView, MapFileException> {
        if !self.grid.is_valid() || !self.grid.covers(self.parameters) {
            Err(MapFileException::of(ErrorKind::InvalidRange))
        } else {
            match self.rows(Progress::start(), self.parameters.from_block_y as int) {
                Err(e) => Err(e),
                Ok(progress) => Ok(progress.result()),
            }
        }
    }

    /// Without columns the rows gather nothing.
    pub proof fn lemma_rows_without_columns(self, progress: Progress, row: int)
        requires
            self.parameters.to_block_x < self.parameters.from_block_x,
        ensures
            self.rows(progress, row) == Ok::<Progress, MapFileException>(progress),
        decreases self.parameters.to_block_y - row + 1,
    {
        if row <= self.parameters.to_block_y {
            self.lemma_rows_without_columns(progress, row + 1);
        }
    }
}

} // verus!
