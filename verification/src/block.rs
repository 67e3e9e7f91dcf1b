//! The layout of a block: its zoom table, its POIs and its ways; and where
//! the index of a sub-file says that a block lies.

use crate::errors::{ErrorKind, MapFileException};
use crate::header::SubFileParameter;
use crate::index_cache::spec_index_entry;
use crate::map_data::BundleView;
use crate::map_file::Selector;
use crate::poi::{spec_optional_signature, spec_pois, PoiQuery};
use crate::reader::{spec_read_exact, spec_read_unsigned_int, Parsed, MAXIMUM_BUFFER_SIZE};
use crate::way::{spec_ways, WayQuery};
use vstd::prelude::*;
use vstd::string::StringSliceAdditionalSpecFns;

verus! {

/// The bits of an index entry that hold the offset of the block: the low 35.
pub const BITMASK_INDEX_OFFSET: i64 = 0x7FFFFFFFF;

/// The bit of an index entry that tells that the block is all water.
pub const BITMASK_INDEX_WATER: i64 = 0x8000000000;

/// `rows` rows of the zoom table from `pos`: each holds two unsigned
/// variable-byte integers, the numbers of POIs and of ways that its zoom
/// level adds; a row of the result holds the numbers up to its zoom level,
/// after `pois` and `ways` from the rows before.
pub open spec fn spec_zoom_table(data: Seq<u8>, pos: int, rows: nat, pois: nat, ways: nat)
    -> Parsed<Seq<(u64, u64)>>
    decreases rows,
{
    if rows == 0 {
        Ok((Seq::empty(), pos))
    } else {
        match spec_read_unsigned_int(data, pos) {
            Err(e) => Err(e),
            Ok((more_pois, pos1)) => match spec_read_unsigned_int(data, pos1) {
                Err(e) => Err(e),
                Ok((more_ways, pos2)) => match spec_zoom_table(
                    data,
                    pos2,
                    (rows - 1) as nat,
                    pois + more_pois as nat,
                    ways + more_ways as nat,
                ) {
                    Err(e) => Err(e),
                    Ok((rest, end)) => Ok(
                        (
                            seq![((pois + more_pois) as u64, (ways + more_ways) as u64)] + rest,
                            end,
                        ),
                    ),
                },
            },
        }
    }
}

/// The outcome of reading more rows after `done` have been read.
pub open spec fn prepend_rows(done: Seq<(u64, u64)>, rest: Parsed<Seq<(u64, u64)>>) -> Parsed<
    Seq<(u64, u64)>,
> {
    match rest {
        Ok((rows, end)) => Ok((done + rows, end)),
        Err(e) => Err(e),
    }
}

/// The number of rows of the zoom table of a sub-file: one for each zoom
/// level that it serves.
pub open spec fn zoom_table_rows(sub_file: SubFileParameter) -> nat {
    if sub_file.zoom_level_max < sub_file.zoom_level_min {
        0
    } else {
        (sub_file.zoom_level_max - sub_file.zoom_level_min + 1) as nat
    }
}

/// What decides how a block is read.
pub struct BlockQuery {
    pub poi: PoiQuery,
    pub way: WayQuery,
    pub sub_file: SubFileParameter,
    pub query_zoom_level: i32,
}

/// The points and ways of a block that starts at `pos`: in a debug file a
/// marker that begins `###TileStart`; the zoom table, of which the row of
/// the query's zoom level tells how many POIs and ways to read (a zoom level
/// without a row fails with `InvalidRange`); the offset of the first way
/// from the byte after the offset (one past the end of the block fails with
/// `BufferOverrun`, which carries the offset); the POIs; and, unless only
/// POIs are asked for, the ways from the first way's place (POIs that reach
/// past it fail with `BufferOverrun`).
#[verifier::opaque]
pub open spec fn spec_block(data: Seq<u8>, pos: int, query: BlockQuery) -> Result<
    BundleView,
    MapFileException,
> {
    match spec_optional_signature(query.poi.debug_file, data, pos, "###TileStart".spec_bytes()) {
        Err(e) => Err(e),
        Ok((_, pos0)) => match spec_zoom_table(data, pos0, zoom_table_rows(query.sub_file), 0, 0) {
            Err(e) => Err(e),
            Ok((table, pos1)) => {
                let row = query.query_zoom_level - query.sub_file.zoom_level_min;
                if row < 0 || row >= table.len() {
                    Err(
                        MapFileException {
                            kind: ErrorKind::InvalidRange,
                            value: query.query_zoom_level as i64,
                        },
                    )
                } else {
                    match spec_read_unsigned_int(data, pos1) {
                        Err(e) => Err(e),
                        Ok((offset, pos2)) => if pos2 + offset > data.len() {
                            Err(
                                MapFileException {
                                    kind: ErrorKind::BufferOverrun,
                                    value: offset as i64,
                                },
                            )
                        } else {
                            match spec_pois(data, pos2, table[row].0 as nat, query.poi) {
                                Err(e) => Err(e),
                                Ok((pois, pos3)) => if query.way.selector == Selector::Pois {
                                    Ok(BundleView { pois, ways: Seq::empty() })
                                } else if pos3 > pos2 + offset {
                                    Err(MapFileException::of(ErrorKind::BufferOverrun))
                                } else {
                                    match spec_ways(
                                        data,
                                        pos2 + offset,
                                        table[row].1 as nat,
                                        query.way,
                                    ) {
                                        Err(e) => Err(e),
                                        Ok((ways, _)) => Ok(BundleView { pois, ways }),
                                    }
                                },
                            }
                        },
                    }
                }
            },
        },
    }
}

/// What the index of a sub-file tells of a block.
pub enum BlockLookup {
    /// The block has no index entry that can be read.
    Unknown,
    /// The block has an index entry and no data that can be read.
    Empty { water: bool },
    /// The block has an index entry and data.
    Data { water: bool, data: Seq<u8> },
}

/// Where the block after `block_number` starts, counted from the start of
/// the sub-file: at the end of the sub-file for the last block, otherwise
/// where the index entry of the next block says. `None` where that entry
/// cannot be read or points past the end of the sub-file.
pub open spec fn spec_next_block_pointer(
    file: Seq<u8>,
    sub_file: SubFileParameter,
    block_number: i64,
) -> Option<i64> {
    if block_number + 1 == sub_file.number_of_blocks {
        Some(sub_file.sub_file_size)
    } else {
        match spec_index_entry(file, sub_file, (block_number + 1) as i64) {
            Err(_) => None,
            Ok(entry) => if entry & BITMASK_INDEX_OFFSET > sub_file.sub_file_size {
                None
            } else {
                Some(entry & BITMASK_INDEX_OFFSET)
            },
        }
    }
}

/// What the index of a sub-file tells of a block, and the bytes of the
/// block.
///
/// Bit 39 of the index entry tells whether the block is all water, its low
/// 35 bits where the block starts, counted from the start of the sub-file.
/// The block ends where the next block starts. There is no data where the
/// block starts at zero or past the end of the sub-file, where its end is
/// not known, where it is empty, ends before it starts or is larger than a
/// buffer may be, and where the file ends before the block does.
pub open spec fn spec_block_lookup(file: Seq<u8>, sub_file: SubFileParameter, block_number: int)
    -> BlockLookup {
    if block_number < i64::MIN || block_number > i64::MAX {
        BlockLookup::Unknown
    } else {
        match spec_index_entry(file, sub_file, block_number as i64) {
            Err(_) => BlockLookup::Unknown,
            Ok(entry) => {
                let water = entry & BITMASK_INDEX_WATER != 0;
                let pointer = entry & BITMASK_INDEX_OFFSET;
                if pointer == 0 || pointer > sub_file.sub_file_size {
                    BlockLookup::Empty { water }
                } else {
                    match spec_next_block_pointer(file, sub_file, block_number as i64) {
                        None => BlockLookup::Empty { water },
                        Some(next) => if next - pointer <= 0 || next - pointer
                            > MAXIMUM_BUFFER_SIZE {
                            BlockLookup::Empty { water }
                        } else {
                            match spec_read_exact(
                                file,
                                sub_file.start_address + pointer,
                                next - pointer,
                            ) {
                                None => BlockLookup::Empty { water },
                                Some(data) => BlockLookup::Data { water, data },
                            }
                        },
                    }
                }
            },
        }
    }
}

} // verus!
