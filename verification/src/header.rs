//! The header of a map file: what it says of the map, and its sub-files.

use crate::errors::{ErrorKind, MapFileException};
use crate::optional_field::{
    spec_optional_fields,
    text_view,
    OptionalFields,
    OptionalFieldsView,
};
use crate::reader::{
    spec_read_byte,
    spec_read_exact,
    spec_read_long,
    Parsed,
    ReadBuffer,
};
use crate::required_field::{
    spec_bounding_box,
    spec_file_size,
    spec_file_version,
    spec_magic,
    spec_map_date,
    spec_projection_name,
    spec_remaining_header_size,
    spec_tag_dictionary,
    spec_tile_pixel_size,
    RequiredFields,
    HEADER_SIZE_MIN,
};
use crate::types::{tags_view, BoundingBox, LatLong, Tag, TagView};
use vstd::prelude::*;
use vstd::std_specs::cmp::PartialEqSpecImpl;

verus! {

/// The size in bytes of one entry of a sub-file's block index.
pub const BYTES_PER_INDEX_ENTRY: u8 = 5;

/// The tiles at a base zoom level that bound the map's area: the columns of
/// its left and right edge, the rows of its top and bottom edge.
#[derive(Debug, Clone, Copy, PartialEq, Eq, Structural)]
pub struct TileBoundary {
    pub left: i64,
    pub top: i64,
    pub right: i64,
    pub bottom: i64,
}

/// Describes one zoom stratum of a map file. Two descriptors are the same
/// sub-file where start address, size and base zoom level agree.
#[derive(Debug, Clone, Copy, Eq)]
pub struct SubFileParameter {
    pub base_zoom_level: u8,
    pub blocks_height: i64,
    pub blocks_width: i64,
    pub boundary_tile_bottom: i64,
    pub boundary_tile_left: i64,
    pub boundary_tile_right: i64,
    pub boundary_tile_top: i64,
    pub index_end_address: i64,
    pub index_start_address: i64,
    pub number_of_blocks: i64,
    pub start_address: i64,
    pub sub_file_size: i64,
    pub zoom_level_max: u8,
    pub zoom_level_min: u8,
}

impl PartialEq for SubFileParameter {
    fn eq(&self, other: &Self) -> (equal: bool) {
        self.start_address == other.start_address && self.sub_file_size == other.sub_file_size
            && self.base_zoom_level == other.base_zoom_level
    }
}

impl PartialEqSpecImpl for SubFileParameter {
    open spec fn obeys_eq_spec() -> bool {
        true
    }

    open spec fn eq_spec(&self, other: &Self) -> bool {
        self.same_sub_file(*other)
    }
}

/// A 64-bit number folded to 32 bits: the low half of its exclusive-or with
/// its high half.
pub open spec fn fold_to_32(value: i64) -> i32 {
    (value ^ (value >> 32)) as i32
}

/// The hash of what identifies a sub-file, in wrapping 32-bit arithmetic.
pub open spec fn identity_hash(start_address: i64, sub_file_size: i64, base_zoom_level: u8) -> i32 {
    7i32.wrapping_mul(31).wrapping_add(fold_to_32(start_address)).wrapping_mul(31).wrapping_add(
        fold_to_32(sub_file_size),
    ).wrapping_mul(31).wrapping_add(base_zoom_level as i32)
}

fn fold(value: i64) -> (folded: i32)
    ensures
        folded == fold_to_32(value),
{
    #[verifier::truncate]
    ((value ^ (value >> 32)) as i32)
}

impl SubFileParameter {
    /// The zoom levels are in their permitted ranges: the base zoom level is
    /// at most 20, and the minimum is at or below the maximum, which is at
    /// most 22.
    pub open spec fn is_valid(&self) -> bool {
        &&& self.base_zoom_level <= 20
        &&& self.zoom_level_min <= self.zoom_level_max <= 22
    }

    /// The fields that follow from the others do so: the numbers of blocks
    /// from the boundary tiles, the end of the index from its start and the
    /// number of blocks, all in wrapping 64-bit arithmetic.
    pub open spec fn is_derived(&self) -> bool {
        &&& self.blocks_width == self.boundary_tile_right.wrapping_sub(
            self.boundary_tile_left,
        ).wrapping_add(1)
        &&& self.blocks_height == self.boundary_tile_bottom.wrapping_sub(
            self.boundary_tile_top,
        ).wrapping_add(1)
        &&& self.number_of_blocks == self.blocks_width.wrapping_mul(self.blocks_height)
        &&& self.index_end_address == self.index_start_address.wrapping_add(
            self.number_of_blocks.wrapping_mul(5),
        )
    }

    /// Start address, size and base zoom level agree.
    pub open spec fn same_sub_file(&self, other: SubFileParameter) -> bool {
        self.start_address == other.start_address && self.sub_file_size == other.sub_file_size
            && self.base_zoom_level == other.base_zoom_level
    }

    /// Whether a zoom level lies in the range that the sub-file serves.
    pub open spec fn covers(&self, zoom_level: int) -> bool {
        self.zoom_level_min <= zoom_level <= self.zoom_level_max
    }

    /// A hash that two descriptors of the same sub-file share.
    pub fn hash_code(&self) -> (hash: i32)
        ensures
            hash == identity_hash(self.start_address, self.sub_file_size, self.base_zoom_level),
    {
        let mut result: i32 = 7i32;
        result = result.wrapping_mul(31).wrapping_add(fold(self.start_address));
        result = result.wrapping_mul(31).wrapping_add(fold(self.sub_file_size));
        result = result.wrapping_mul(31).wrapping_add(self.base_zoom_level as i32);
        result
    }
}

/// Gathers what describes a sub-file and derives the rest.
pub struct SubFileParameterBuilder {
    pub base_zoom_level: u8,
    pub boundary: Option<TileBoundary>,
    pub index_start_address: i64,
    pub start_address: i64,
    pub sub_file_size: i64,
    pub zoom_level_max: u8,
    pub zoom_level_min: u8,
}

impl SubFileParameterBuilder {
    /// The descriptor with the given fields and what follows from them.
    pub open spec fn derive(
        base_zoom_level: u8,
        boundary: TileBoundary,
        index_start_address: i64,
        start_address: i64,
        sub_file_size: i64,
        zoom_level_max: u8,
        zoom_level_min: u8,
    ) -> SubFileParameter {
        let blocks_width = boundary.right.wrapping_sub(boundary.left).wrapping_add(1);
        let blocks_height = boundary.bottom.wrapping_sub(boundary.top).wrapping_add(1);
        let number_of_blocks = blocks_width.wrapping_mul(blocks_height);
        SubFileParameter {
            base_zoom_level,
            blocks_height,
            blocks_width,
            boundary_tile_bottom: boundary.bottom,
            boundary_tile_left: boundary.left,
            boundary_tile_right: boundary.right,
            boundary_tile_top: boundary.top,
            index_end_address: index_start_address.wrapping_add(number_of_blocks.wrapping_mul(5)),
            index_start_address,
            number_of_blocks,
            start_address,
            sub_file_size,
            zoom_level_max,
            zoom_level_min,
        }
    }

    /// A builder with every number zero and no boundary.
    pub fn new() -> (builder: Self)
        ensures
            builder.base_zoom_level == 0,
            builder.boundary is None,
            builder.index_start_address == 0,
            builder.start_address == 0,
            builder.sub_file_size == 0,
            builder.zoom_level_max == 0,
            builder.zoom_level_min == 0,
    {
        SubFileParameterBuilder {
            base_zoom_level: 0,
            boundary: None,
            index_start_address: 0,
            start_address: 0,
            sub_file_size: 0,
            zoom_level_max: 0,
            zoom_level_min: 0,
        }
    }

    /// The descriptor, or `MalformedHeader` where no boundary was given.
    pub fn build(self) -> (r: Result<SubFileParameter, MapFileException>)
        ensures
            match self.boundary {
                Some(boundary) => r matches Ok(built) && built == Self::derive(
                    self.base_zoom_level,
                    boundary,
                    self.index_start_address,
                    self.start_address,
                    self.sub_file_size,
                    self.zoom_level_max,
                    self.zoom_level_min,
                ) && built.is_derived(),
                None => r matches Err(e) && e == MapFileException::of(ErrorKind::MalformedHeader),
            },
    {
        let boundary: TileBoundary = match self.boundary {
            Some(boundary) => boundary,
            None => {
                return Err(MapFileException::new(ErrorKind::MalformedHeader, 0));
            },
        };
        let blocks_width: i64 = boundary.right.wrapping_sub(boundary.left).wrapping_add(1);
        let blocks_height: i64 = boundary.bottom.wrapping_sub(boundary.top).wrapping_add(1);
        let number_of_blocks: i64 = blocks_width.wrapping_mul(blocks_height);
        let index_end_address: i64 = self.index_start_address.wrapping_add(
            number_of_blocks.wrapping_mul(5),
        );
        Ok(
            SubFileParameter {
                base_zoom_level: self.base_zoom_level,
                blocks_height,
                blocks_width,
                boundary_tile_bottom: boundary.bottom,
                boundary_tile_left: boundary.left,
                boundary_tile_right: boundary.right,
                boundary_tile_top: boundary.top,
                index_end_address,
                index_start_address: self.index_start_address,
                number_of_blocks,
                start_address: self.start_address,
                sub_file_size: self.sub_file_size,
                zoom_level_max: self.zoom_level_max,
                zoom_level_min: self.zoom_level_min,
            },
        )
    }
}

/// What a `MapFileInfo` holds.
pub struct MapFileInfoView {
    pub bounding_box: BoundingBox,
    pub comment: Option<Seq<char>>,
    pub created_by: Option<Seq<char>>,
    pub debug_file: bool,
    pub file_size: i64,
    pub file_version: i32,
    pub languages_preference: Option<Seq<char>>,
    pub map_date: i64,
    pub number_of_sub_files: u8,
    pub poi_tags: Seq<TagView>,
    pub projection_name: Seq<char>,
    pub start_position: Option<LatLong>,
    pub start_zoom_level: Option<u8>,
    pub tile_pixel_size: i32,
    pub way_tags: Seq<TagView>,
    pub zoom_level_min: u8,
    pub zoom_level_max: u8,
}

/// What the header of a map file says of the map.
#[derive(Debug)]
pub struct MapFileInfo {
    pub bounding_box: BoundingBox,
    pub comment: Option<String>,
    pub created_by: Option<String>,
    pub debug_file: bool,
    pub file_size: i64,
    pub file_version: i32,
    pub languages_preference: Option<String>,
    pub map_date: i64,
    pub number_of_sub_files: u8,
    pub poi_tags: Vec<Tag>,
    pub projection_name: String,
    pub start_position: Option<LatLong>,
    pub start_zoom_level: Option<u8>,
    pub tile_pixel_size: i32,
    pub way_tags: Vec<Tag>,
    pub zoom_level_min: u8,
    pub zoom_level_max: u8,
}

impl View for MapFileInfo {
    type V = MapFileInfoView;

    open spec fn view(&self) -> MapFileInfoView {
        MapFileInfoView {
            bounding_box: self.bounding_box,
            comment: text_view(self.comment),
            created_by: text_view(self.created_by),
            debug_file: self.debug_file,
            file_size: self.file_size,
            file_version: self.file_version,
            languages_preference: text_view(self.languages_preference),
            map_date: self.map_date,
            number_of_sub_files: self.number_of_sub_files,
            poi_tags: tags_view(self.poi_tags@),
            projection_name: self.projection_name@,
            start_position: self.start_position,
            start_zoom_level: self.start_zoom_level,
            tile_pixel_size: self.tile_pixel_size,
            way_tags: tags_view(self.way_tags@),
            zoom_level_min: self.zoom_level_min,
            zoom_level_max: self.zoom_level_max,
        }
    }
}

/// What a `MapFileInfoBuilder` holds.
pub struct MapFileInfoBuilderView {
    pub bounding_box: Option<BoundingBox>,
    pub file_size: i64,
    pub file_version: i32,
    pub map_date: i64,
    pub number_of_sub_files: u8,
    pub optional_fields: OptionalFieldsView,
    pub poi_tags: Seq<TagView>,
    pub projection_name: Seq<char>,
    pub tile_pixel_size: i32,
    pub way_tags: Seq<TagView>,
    pub zoom_level_min: u8,
    pub zoom_level_max: u8,
}

impl MapFileInfoBuilderView {
    /// The builder before anything was read.
    pub open spec fn empty() -> MapFileInfoBuilderView {
        MapFileInfoBuilderView {
            bounding_box: None,
            file_size: 0,
            file_version: 0,
            map_date: 0,
            number_of_sub_files: 0,
            optional_fields: OptionalFieldsView::empty(),
            poi_tags: Seq::empty(),
            projection_name: Seq::empty(),
            tile_pixel_size: 0,
            way_tags: Seq::empty(),
            zoom_level_min: 0,
            zoom_level_max: 0,
        }
    }

    /// What the gathered fields say of the map, given its bounding box.
    pub open spec fn info(self, bounding_box: BoundingBox) -> MapFileInfoView {
        MapFileInfoView {
            bounding_box,
            comment: self.optional_fields.comment,
            created_by: self.optional_fields.created_by,
            debug_file: self.optional_fields.is_debug_file,
            file_size: self.file_size,
            file_version: self.file_version,
            languages_preference: self.optional_fields.languages_preference,
            map_date: self.map_date,
            number_of_sub_files: self.number_of_sub_files,
            poi_tags: self.poi_tags,
            projection_name: self.projection_name,
            start_position: self.optional_fields.start_position,
            start_zoom_level: self.optional_fields.start_zoom_level,
            tile_pixel_size: self.tile_pixel_size,
            way_tags: self.way_tags,
            zoom_level_min: self.zoom_level_min,
            zoom_level_max: self.zoom_level_max,
        }
    }
}

/// Gathers the fields of a header as they are read.
pub struct MapFileInfoBuilder {
    pub bounding_box: Option<BoundingBox>,
    pub file_size: i64,
    pub file_version: i32,
    pub map_date: i64,
    pub number_of_sub_files: u8,
    pub optional_fields: OptionalFields,
    pub poi_tags: Vec<Tag>,
    pub projection_name: String,
    pub tile_pixel_size: i32,
    pub way_tags: Vec<Tag>,
    pub zoom_level_min: u8,
    pub zoom_level_max: u8,
}

impl View for MapFileInfoBuilder {
    type V = MapFileInfoBuilderView;

    open spec fn view(&self) -> MapFileInfoBuilderView {
        MapFileInfoBuilderView {
            bounding_box: self.bounding_box,
            file_size: self.file_size,
            file_version: self.file_version,
            map_date: self.map_date,
            number_of_sub_files: self.number_of_sub_files,
            optional_fields: self.optional_fields@,
            poi_tags: tags_view(self.poi_tags@),
            projection_name: self.projection_name@,
            tile_pixel_size: self.tile_pixel_size,
            way_tags: tags_view(self.way_tags@),
            zoom_level_min: self.zoom_level_min,
            zoom_level_max: self.zoom_level_max,
        }
    }
}

impl MapFileInfoBuilder {
    /// A builder that holds nothing yet.
    pub fn new() -> (builder: Self)
        ensures
            builder@ == MapFileInfoBuilderView::empty(),
    {
        let builder = MapFileInfoBuilder {
            bounding_box: None,
            file_size: 0,
            file_version: 0,
            map_date: 0,
            number_of_sub_files: 0,
            optional_fields: OptionalFields::default(),
            poi_tags: Vec::new(),
            projection_name: String::new(),
            tile_pixel_size: 0,
            way_tags: Vec::new(),
            zoom_level_min: 0,
            zoom_level_max: 0,
        };
        assert(tags_view(builder.poi_tags@) =~= Seq::empty());
        assert(tags_view(builder.way_tags@) =~= Seq::empty());
        builder
    }

    /// What the gathered fields say of the map, or `MalformedHeader` where no
    /// bounding box was read.
    pub fn build(self) -> (r: Result<MapFileInfo, MapFileException>)
        ensures
            match self@.bounding_box {
                Some(bounding_box) => r matches Ok(info) && info@ == self@.info(bounding_box),
                None => r matches Err(e) && e == MapFileException::of(ErrorKind::MalformedHeader),
            },
    {
        let bounding_box: BoundingBox = match self.bounding_box {
            Some(bounding_box) => bounding_box,
            None => {
                return Err(MapFileException::new(ErrorKind::MalformedHeader, 0));
            },
        };
        Ok(
            MapFileInfo {
                bounding_box,
                comment: self.optional_fields.comment,
                created_by: self.optional_fields.created_by,
                debug_file: self.optional_fields.is_debug_file,
                file_size: self.file_size,
                file_version: self.file_version,
                languages_preference: self.optional_fields.languages_preference,
                map_date: self.map_date,
                number_of_sub_files: self.number_of_sub_files,
                poi_tags: self.poi_tags,
                projection_name: self.projection_name,
                start_position: self.optional_fields.start_position,
                start_zoom_level: self.optional_fields.start_zoom_level,
                tile_pixel_size: self.tile_pixel_size,
                way_tags: self.way_tags,
                zoom_level_min: self.zoom_level_min,
                zoom_level_max: self.zoom_level_max,
            },
        )
    }
}

/// The largest base zoom level of a sub-file.
pub const BASE_ZOOM_LEVEL_MAX: u8 = 20;

/// The largest zoom level that a sub-file serves.
pub const SUB_FILE_ZOOM_LEVEL_MAX: u8 = 22;

/// The length in bytes of the marker that precedes the index of a sub-file
/// of a debug file.
pub const SIGNATURE_LENGTH_INDEX: i64 = 16;

/// The error that a header field out of bounds gives: it carries the value.
pub open spec fn malformed<T>(value: int) -> Parsed<T> {
    Err(MapFileException { kind: ErrorKind::MalformedHeader, value: value as i64 })
}

/// The descriptor of one sub-file at `pos`: base zoom level (at most 20),
/// least and largest zoom level (each at most 22, the least not above the
/// largest), each one byte; start address (from 70 to below the file size)
/// and size (at least 1), each eight bytes. The first field out of bounds
/// fails with `MalformedHeader`. The index starts at the start address, in a
/// debug file 16 bytes later. The boundary tiles are those that `boundaries`
/// holds for the base zoom level; a missing entry fails with `InvalidRange`.
#[verifier::opaque]
pub open spec fn spec_sub_file(
    data: Seq<u8>,
    pos: int,
    file_size: i64,
    debug_file: bool,
    boundaries: Seq<TileBoundary>,
) -> Parsed<SubFileParameter> {
    match spec_read_byte(data, pos) {
        Err(e) => Err(e),
        Ok((base_zoom_level, pos1)) => if base_zoom_level > BASE_ZOOM_LEVEL_MAX {
            malformed(base_zoom_level as int)
        } else {
            match spec_read_byte(data, pos1) {
                Err(e) => Err(e),
                Ok((zoom_level_min, pos2)) => if zoom_level_min > SUB_FILE_ZOOM_LEVEL_MAX {
                    malformed(zoom_level_min as int)
                } else {
                    match spec_read_byte(data, pos2) {
                        Err(e) => Err(e),
                        Ok((zoom_level_max, pos3)) => if zoom_level_max > SUB_FILE_ZOOM_LEVEL_MAX {
                            malformed(zoom_level_max as int)
                        } else if zoom_level_min > zoom_level_max {
                            malformed(zoom_level_min as int)
                        } else {
                            match spec_read_long(data, pos3) {
                                Err(e) => Err(e),
                                Ok((start_address, pos4)) => if start_address < HEADER_SIZE_MIN
                                    || start_address >= file_size {
                                    malformed(start_address as int)
                                } else {
                                    match spec_read_long(data, pos4) {
                                        Err(e) => Err(e),
                                        Ok((sub_file_size, pos5)) => if sub_file_size < 1 {
                                            malformed(sub_file_size as int)
                                        } else if base_zoom_level >= boundaries.len() {
                                            Err(
                                                MapFileException {
                                                    kind: ErrorKind::InvalidRange,
                                                    value: base_zoom_level as i64,
                                                },
                                            )
                                        } else {
                                            Ok(
                                                (
                                                    SubFileParameterBuilder::derive(
                                                        base_zoom_level,
                                                        boundaries[base_zoom_level as int],
                                                        if debug_file {
                                                            start_address.wrapping_add(16)
                                                        } else {
                                                            start_address
                                                        },
                                                        start_address,
                                                        sub_file_size,
                                                        zoom_level_max,
                                                        zoom_level_min,
                                                    ),
                                                    pos5,
                                                ),
                                            )
                                        },
                                    }
                                },
                            }
                        },
                    }
                },
            }
        },
    }
}

/// The descriptors of `count` sub-files from `pos`, in the order of the
/// file.
pub open spec fn spec_sub_files(
    data: Seq<u8>,
    pos: int,
    count: nat,
    file_size: i64,
    debug_file: bool,
    boundaries: Seq<TileBoundary>,
) -> Parsed<Seq<SubFileParameter>>
    decreases count,
{
    if count == 0 {
        Ok((Seq::empty(), pos))
    } else {
        match spec_sub_file(data, pos, file_size, debug_file, boundaries) {
            Err(e) => Err(e),
            Ok((first, next)) => match spec_sub_files(
                data,
                next,
                (count - 1) as nat,
                file_size,
                debug_file,
                boundaries,
            ) {
                Err(e) => Err(e),
                Ok((rest, end)) => Ok((seq![first] + rest, end)),
            },
        }
    }
}

/// The number of sub-files in one byte, at least 1 (else `MalformedHeader`),
/// and then their descriptors.
pub open spec fn spec_sub_file_section(
    data: Seq<u8>,
    pos: int,
    file_size: i64,
    debug_file: bool,
    boundaries: Seq<TileBoundary>,
) -> Parsed<Seq<SubFileParameter>> {
    match spec_read_byte(data, pos) {
        Err(e) => Err(e),
        Ok((count, next)) => if count < 1 {
            malformed(count as int)
        } else {
            spec_sub_files(data, next, count as nat, file_size, debug_file, boundaries)
        },
    }
}

/// The outcome of reading more descriptors after `done` have been read.
pub open spec fn prepend_sub_files(
    done: Seq<SubFileParameter>,
    rest: Parsed<Seq<SubFileParameter>>,
) -> Parsed<Seq<SubFileParameter>> {
    match rest {
        Ok((sub_files, end)) => Ok((done + sub_files, end)),
        Err(e) => Err(e),
    }
}

/// The least zoom level that any of the sub-files serves; 255 for none.
pub open spec fn lowest_zoom_level(sub_files: Seq<SubFileParameter>) -> u8
    decreases sub_files.len(),
{
    if sub_files.len() == 0 {
        255
    } else {
        let before = lowest_zoom_level(sub_files.drop_last());
        if sub_files.last().zoom_level_min < before {
            sub_files.last().zoom_level_min
        } else {
            before
        }
    }
}

/// The largest zoom level that any of the sub-files serves; 0 for none.
pub open spec fn highest_zoom_level(sub_files: Seq<SubFileParameter>) -> u8
    decreases sub_files.len(),
{
    if sub_files.len() == 0 {
        0
    } else {
        let before = highest_zoom_level(sub_files.drop_last());
        if sub_files.last().zoom_level_max > before {
            sub_files.last().zoom_level_max
        } else {
            before
        }
    }
}

/// The index of the first sub-file at or after `from` that serves
/// `zoom_level`.
pub open spec fn first_covering(sub_files: Seq<SubFileParameter>, zoom_level: int, from: int)
    -> Option<int>
    decreases sub_files.len() - from,
{
    if from < 0 || from >= sub_files.len() {
        None
    } else if sub_files[from].covers(zoom_level) {
        Some(from)
    } else {
        first_covering(sub_files, zoom_level, from + 1)
    }
}

/// The sub-file that answers queries at `zoom_level`: the first declared
/// one that serves it and, where none does, the last declared one.
pub open spec fn sub_file_for(sub_files: Seq<SubFileParameter>, zoom_level: int)
    -> SubFileParameter {
    match first_covering(sub_files, zoom_level, 0) {
        Some(index) => sub_files[index],
        None => sub_files.last(),
    }
}

/// The table that holds, for each zoom level from 0 to the largest that any
/// sub-file serves, the sub-file that answers queries there.
pub open spec fn dense_table(sub_files: Seq<SubFileParameter>) -> Seq<SubFileParameter> {
    Seq::new(
        (highest_zoom_level(sub_files) + 1) as nat,
        |zoom_level: int| sub_file_for(sub_files, zoom_level),
    )
}

/// The flags byte and the fields that it announces.
pub open spec fn spec_flags_and_optional_fields(data: Seq<u8>, pos: int) -> Parsed<
    OptionalFieldsView,
> {
    match spec_read_byte(data, pos) {
        Ok((flags, next)) => spec_optional_fields(
            OptionalFieldsView::from_flags(flags),
            data,
            next,
        ),
        Err(e) => Err(e),
    }
}

/// The fields of the loaded header up to the tag dictionaries, in their
/// order: version, file size, date, bounding box, tile size, projection,
/// flags and optional fields, POI tags, way tags.
pub open spec fn spec_info_fields(data: Seq<u8>, file_size: i64) -> Parsed<
    MapFileInfoBuilderView,
> {
    match spec_file_version(data, 0) {
        Err(e) => Err(e),
        Ok((file_version, pos1)) => match spec_file_size(data, pos1, file_size) {
            Err(e) => Err(e),
            Ok((size, pos2)) => match spec_map_date(data, pos2) {
                Err(e) => Err(e),
                Ok((map_date, pos3)) => match spec_bounding_box(data, pos3) {
                    Err(e) => Err(e),
                    Ok((bounding_box, pos4)) => match spec_tile_pixel_size(data, pos4) {
                        Err(e) => Err(e),
                        Ok((tile_pixel_size, pos5)) => match spec_projection_name(data, pos5) {
                            Err(e) => Err(e),
                            Ok((projection_name, pos6)) => match spec_flags_and_optional_fields(
                                data,
                                pos6,
                            ) {
                                Err(e) => Err(e),
                                Ok((optional_fields, pos7)) => match spec_tag_dictionary(
                                    data,
                                    pos7,
                                ) {
                                    Err(e) => Err(e),
                                    Ok((poi_tags, pos8)) => match spec_tag_dictionary(data, pos8) {
                                        Err(e) => Err(e),
                                        Ok((way_tags, pos9)) => Ok(
                                            (
                                                MapFileInfoBuilderView {
                                                    bounding_box: Some(bounding_box),
                                                    file_size: size,
                                                    file_version,
                                                    map_date,
                                                    number_of_sub_files: 0,
                                                    optional_fields,
                                                    poi_tags,
                                                    projection_name,
                                                    tile_pixel_size,
                                                    way_tags,
                                                    zoom_level_min: 0,
                                                    zoom_level_max: 0,
                                                },
                                                pos9,
                                            ),
                                        ),
                                    },
                                },
                            },
                        },
                    },
                },
            },
        },
    }
}

/// What a `MapFileHeader` holds: what the header says of the map, the table
/// from zoom level to sub-file, and the range of zoom levels that the
/// sub-files serve.
pub struct MapFileHeaderView {
    pub map_file_info: Option<MapFileInfoView>,
    pub sub_file_parameters: Option<Seq<SubFileParameter>>,
    pub zoom_level_maximum: u8,
    pub zoom_level_minimum: u8,
}

impl MapFileHeaderView {
    /// The header before anything was read.
    pub open spec fn empty() -> MapFileHeaderView {
        MapFileHeaderView {
            map_file_info: None,
            sub_file_parameters: None,
            zoom_level_maximum: 0,
            zoom_level_minimum: 255,
        }
    }

    /// The header that the fields and the declared sub-files make.
    pub open spec fn of(fields: MapFileInfoBuilderView, sub_files: Seq<SubFileParameter>)
        -> MapFileHeaderView {
        MapFileHeaderView {
            map_file_info: Some(
                MapFileInfoBuilderView {
                    number_of_sub_files: sub_files.len() as u8,
                    zoom_level_min: lowest_zoom_level(sub_files),
                    zoom_level_max: highest_zoom_level(sub_files),
                    ..fields
                }.info(fields.bounding_box->0),
            ),
            sub_file_parameters: Some(dense_table(sub_files)),
            zoom_level_maximum: highest_zoom_level(sub_files),
            zoom_level_minimum: lowest_zoom_level(sub_files),
        }
    }

    /// The zoom level at which a query for `zoom_level` is answered: the
    /// nearest one in the range that the sub-files serve.
    pub open spec fn query_zoom_level(self, zoom_level: u8) -> u8 {
        if zoom_level > self.zoom_level_maximum {
            self.zoom_level_maximum
        } else if zoom_level < self.zoom_level_minimum {
            self.zoom_level_minimum
        } else {
            zoom_level
        }
    }

    /// The sub-file that the table holds for a zoom level, if any.
    pub open spec fn sub_file_parameter(self, query_zoom_level: int) -> Option<SubFileParameter> {
        match self.sub_file_parameters {
            Some(table) => if 0 <= query_zoom_level < table.len() {
                Some(table[query_zoom_level])
            } else {
                None
            },
            None => None,
        }
    }
}

/// The loaded header: its fields, then its sub-files.
pub open spec fn spec_header_region(data: Seq<u8>, file_size: i64, boundaries: Seq<TileBoundary>)
    -> Result<MapFileHeaderView, MapFileException> {
    match spec_info_fields(data, file_size) {
        Err(e) => Err(e),
        Ok((fields, pos)) => match spec_sub_file_section(
            data,
            pos,
            file_size,
            fields.optional_fields.is_debug_file,
            boundaries,
        ) {
            Err(e) => Err(e),
            Ok((sub_files, _)) => Ok(MapFileHeaderView::of(fields, sub_files)),
        },
    }
}

/// The header of the map file that `channel` holds from `start`: 24 bytes
/// with the magic bytes and the size of the rest, then the rest. A source
/// that ends before the header does fails with `IoError`.
pub open spec fn spec_header(
    channel: Seq<u8>,
    start: int,
    file_size: i64,
    boundaries: Seq<TileBoundary>,
) -> Result<MapFileHeaderView, MapFileException> {
    match spec_magic(channel, start) {
        Err(e) => Err(e),
        Ok(region) => match spec_remaining_header_size(region, 20) {
            Err(e) => Err(e),
            Ok((size, _)) => match spec_read_exact(channel, start + 24, size as int) {
                None => Err(MapFileException::of(ErrorKind::IoError)),
                Some(data) => spec_header_region(data, file_size, boundaries),
            },
        },
    }
}

/// The view of the info that may be absent.
pub open spec fn info_view(info: Option<MapFileInfo>) -> Option<MapFileInfoView> {
    match info {
        Some(info) => Some(info@),
        None => None,
    }
}

/// The view of the table that may be absent.
pub open spec fn table_view(table: Option<Vec<SubFileParameter>>) -> Option<
    Seq<SubFileParameter>,
> {
    match table {
        Some(table) => Some(table@),
        None => None,
    }
}

/// The first declared sub-file that serves `zoom_level` or, where none
/// does, the last declared one.
fn find_sub_file(sub_files: &Vec<SubFileParameter>, zoom_level: u8) -> (found: SubFileParameter)
    requires
        sub_files@.len() > 0,
    ensures
        found == sub_file_for(sub_files@, zoom_level as int),
{
    let mut index: usize = 0;
    while index < sub_files.len()
        invariant
            index <= sub_files@.len(),
            first_covering(sub_files@, zoom_level as int, 0) == first_covering(
                sub_files@,
                zoom_level as int,
                index as int,
            ),
        decreases sub_files@.len() - index,
    {
        let candidate: SubFileParameter = sub_files[index];
        if zoom_level >= candidate.zoom_level_min && zoom_level <= candidate.zoom_level_max {
            return candidate;
        }
        index += 1;
    }
    sub_files[sub_files.len() - 1]
}

/// Reads the descriptor of one sub-file. On failure nothing but the cursor
/// of the buffer may differ.
fn read_sub_file_parameter(
    read_buffer: &mut ReadBuffer,
    file_size: i64,
    debug_file: bool,
    boundaries: &[TileBoundary],
) -> (r: Result<SubFileParameter, MapFileException>)
    ensures
        old(read_buffer)@.same_region(final(read_buffer)@),
        match spec_sub_file(
            old(read_buffer)@.data,
            old(read_buffer)@.position,
            file_size,
            debug_file,
            boundaries@,
        ) {
            Ok((sub_file, next)) => r == Ok::<SubFileParameter, MapFileException>(sub_file)
                && final(read_buffer)@.position == next && sub_file.is_valid(),
            Err(e) => r == Err::<SubFileParameter, MapFileException>(e),
        },
{
    reveal(spec_sub_file);
    let mut builder = SubFileParameterBuilder::new();

    // the base zoom level
    let base_zoom_level: u8 = match read_buffer.read_byte() {
        Ok(value) => value,
        Err(e) => {
            return Err(e);
        },
    };
    if base_zoom_level > BASE_ZOOM_LEVEL_MAX {
        return Err(
            MapFileException::new(ErrorKind::MalformedHeader, base_zoom_level as i64),
        );
    }
    builder.base_zoom_level = base_zoom_level;

    // the least zoom level
    let zoom_level_min: u8 = match read_buffer.read_byte() {
        Ok(value) => value,
        Err(e) => {
            return Err(e);
        },
    };
    if zoom_level_min > SUB_FILE_ZOOM_LEVEL_MAX {
        return Err(
            MapFileException::new(ErrorKind::MalformedHeader, zoom_level_min as i64),
        );
    }
    builder.zoom_level_min = zoom_level_min;

    // the largest zoom level
    let zoom_level_max: u8 = match read_buffer.read_byte() {
        Ok(value) => value,
        Err(e) => {
            return Err(e);
        },
    };
    if zoom_level_max > SUB_FILE_ZOOM_LEVEL_MAX {
        return Err(
            MapFileException::new(ErrorKind::MalformedHeader, zoom_level_max as i64),
        );
    }
    builder.zoom_level_max = zoom_level_max;

    // the range of zoom levels
    if zoom_level_min > zoom_level_max {
        return Err(
            MapFileException::new(ErrorKind::MalformedHeader, zoom_level_min as i64),
        );
    }

    // the start address
    let start_address: i64 = match read_buffer.read_long() {
        Ok(value) => value,
        Err(e) => {
            return Err(e);
        },
    };
    if start_address < HEADER_SIZE_MIN as i64 || start_address >= file_size {
        return Err(MapFileException::new(ErrorKind::MalformedHeader, start_address));
    }
    builder.start_address = start_address;

    let index_start_address: i64 = if debug_file {
        // the index of a debug file follows a marker
        start_address.wrapping_add(SIGNATURE_LENGTH_INDEX)
    } else {
        start_address
    };
    builder.index_start_address = index_start_address;

    // the size of the sub-file
    let sub_file_size: i64 = match read_buffer.read_long() {
        Ok(value) => value,
        Err(e) => {
            return Err(e);
        },
    };
    if sub_file_size < 1 {
        return Err(MapFileException::new(ErrorKind::MalformedHeader, sub_file_size));
    }
    builder.sub_file_size = sub_file_size;

    // the boundary tiles at the base zoom level
    if base_zoom_level as usize >= boundaries.len() {
        return Err(MapFileException::new(ErrorKind::InvalidRange, base_zoom_level as i64));
    }
    builder.boundary = Some(boundaries[base_zoom_level as usize]);

    builder.build()
}

/// The header of a map file.
pub struct MapFileHeader {
    map_file_info: Option<MapFileInfo>,
    sub_file_parameters: Option<Vec<SubFileParameter>>,
    zoom_level_maximum: u8,
    zoom_level_minimum: u8,
}

impl View for MapFileHeader {
    type V = MapFileHeaderView;

    closed spec fn view(&self) -> MapFileHeaderView {
        MapFileHeaderView {
            map_file_info: info_view(self.map_file_info),
            sub_file_parameters: table_view(self.sub_file_parameters),
            zoom_level_maximum: self.zoom_level_maximum,
            zoom_level_minimum: self.zoom_level_minimum,
        }
    }
}

impl MapFileHeader {
    /// The header before anything was read.
    pub fn new() -> (header: Self)
        ensures
            header@ == MapFileHeaderView::empty(),
    {
        MapFileHeader {
            map_file_info: None,
            sub_file_parameters: None,
            zoom_level_maximum: 0,
            zoom_level_minimum: u8::MAX,
        }
    }

    /// What the header says of the map, once it was read.
    pub fn get_map_file_info(&self) -> (info: Option<&MapFileInfo>)
        ensures
            match info {
                Some(found) => self@.map_file_info == Some(found@),
                None => self@.map_file_info is None,
            },
    {
        self.map_file_info.as_ref()
    }

    /// The zoom level at which a query for `zoom_level` is answered.
    pub fn get_query_zoom_level(&self, zoom_level: u8) -> (query_zoom_level: u8)
        ensures
            query_zoom_level == self@.query_zoom_level(zoom_level),
    {
        if zoom_level > self.zoom_level_maximum {
            self.zoom_level_maximum
        } else if zoom_level < self.zoom_level_minimum {
            self.zoom_level_minimum
        } else {
            zoom_level
        }
    }

    /// The sub-file that answers queries at a zoom level, if the table holds
    /// that level.
    pub fn get_sub_file_parameter(&self, query_zoom_level: usize) -> (found: Option<
        &SubFileParameter,
    >)
        ensures
            match found {
                Some(sub_file) => self@.sub_file_parameter(query_zoom_level as int) == Some(
                    *sub_file,
                ),
                None => self@.sub_file_parameter(query_zoom_level as int) is None,
            },
    {
        match &self.sub_file_parameters {
            Some(table) => {
                if query_zoom_level < table.len() {
                    Some(&table[query_zoom_level])
                } else {
                    None
                }
            },
            None => None,
        }
    }

    /// Reads the header of the map file from the source of `read_buffer`,
    /// starting where the buffer would load next. `boundaries` holds, for each
    /// base zoom level from 0, the tiles that bound the map's area there.
    /// On failure the header is as before.
    pub fn read_header(
        &mut self,
        read_buffer: &mut ReadBuffer,
        file_size: i64,
        boundaries: &[TileBoundary],
    ) -> (r: Result<(), MapFileException>)
        ensures
            match spec_header(
                old(read_buffer)@.channel,
                old(read_buffer)@.channel_position,
                file_size,
                boundaries@,
            ) {
                Ok(header) => r is Ok && final(self)@ == header,
                Err(e) => r == Err::<(), MapFileException>(e) && final(self)@ == old(self)@,
            },
            final(read_buffer)@.channel == old(read_buffer)@.channel,
    {
        RequiredFields::read_magic_byte(read_buffer)?;
        RequiredFields::read_remaining_header(read_buffer)?;

        let mut map_file_info_builder = MapFileInfoBuilder::new();

        RequiredFields::read_file_version(read_buffer, &mut map_file_info_builder)?;
        RequiredFields::read_file_size(read_buffer, file_size, &mut map_file_info_builder)?;
        RequiredFields::read_map_date(read_buffer, &mut map_file_info_builder)?;
        RequiredFields::read_bounding_box(read_buffer, &mut map_file_info_builder)?;
        RequiredFields::read_tile_pixel_size(read_buffer, &mut map_file_info_builder)?;
        RequiredFields::read_projection_name(read_buffer, &mut map_file_info_builder)?;

        let mut optional_fields = OptionalFields::new(read_buffer.read_byte()?);
        optional_fields.read_optional_fields(read_buffer)?;
        map_file_info_builder.optional_fields = optional_fields;
        RequiredFields::read_poi_tags(read_buffer, &mut map_file_info_builder)?;
        RequiredFields::read_way_tags(read_buffer, &mut map_file_info_builder)?;

        self.read_sub_file_parameters(
            read_buffer,
            file_size,
            &mut map_file_info_builder,
            boundaries,
        )?;

        match map_file_info_builder.build() {
            Ok(info) => {
                self.map_file_info = Some(info);
                Ok(())
            },
            Err(e) => Err(e),
        }
    }

    /// Reads the number of sub-files and their descriptors, and builds the
    /// table from zoom level to sub-file. The builder learns the number of
    /// sub-files and the range of zoom levels that they serve. On failure
    /// header and builder are as before.
    pub fn read_sub_file_parameters(
        &mut self,
        read_buffer: &mut ReadBuffer,
        file_size: i64,
        map_file_info_builder: &mut MapFileInfoBuilder,
        boundaries: &[TileBoundary],
    ) -> (r: Result<(), MapFileException>)
        ensures
            old(read_buffer)@.same_region(final(read_buffer)@),
            match spec_sub_file_section(
                old(read_buffer)@.data,
                old(read_buffer)@.position,
                file_size,
                old(map_file_info_builder)@.optional_fields.is_debug_file,
                boundaries@,
            ) {
                Ok((sub_files, next)) => {
                    &&& r is Ok
                    &&& final(read_buffer)@.position == next
                    &&& final(self)@ == (MapFileHeaderView {
                        sub_file_parameters: Some(dense_table(sub_files)),
                        zoom_level_maximum: highest_zoom_level(sub_files),
                        zoom_level_minimum: lowest_zoom_level(sub_files),
                        ..old(self)@
                    })
                    &&& final(map_file_info_builder)@ == (MapFileInfoBuilderView {
                        number_of_sub_files: sub_files.len() as u8,
                        zoom_level_min: lowest_zoom_level(sub_files),
                        zoom_level_max: highest_zoom_level(sub_files),
                        ..old(map_file_info_builder)@
                    })
                },
                Err(e) => r == Err::<(), MapFileException>(e) && final(self)@ == old(self)@
                    && final(map_file_info_builder)@ == old(map_file_info_builder)@,
            },
    {
        let number_of_sub_files: u8 = read_buffer.read_byte()?;
        if number_of_sub_files < 1 {
            return Err(
                MapFileException::new(ErrorKind::MalformedHeader, number_of_sub_files as i64),
            );
        }
        let debug_file: bool = map_file_info_builder.optional_fields.is_debug_file;
        let ghost start = read_buffer@.position;
        let mut temp_sub_file_parameters: Vec<SubFileParameter> = Vec::new();
        let mut zoom_level_minimum: u8 = u8::MAX;
        let mut zoom_level_maximum: u8 = 0;

        let mut current_sub_file: u8 = 0;
        while current_sub_file < number_of_sub_files
            invariant
                current_sub_file <= number_of_sub_files,
                old(read_buffer)@.same_region(read_buffer@),
                temp_sub_file_parameters@.len() == current_sub_file,
                zoom_level_minimum == lowest_zoom_level(temp_sub_file_parameters@),
                zoom_level_maximum == highest_zoom_level(temp_sub_file_parameters@),
                zoom_level_maximum <= 22,
                debug_file == old(map_file_info_builder)@.optional_fields.is_debug_file,
                *map_file_info_builder == *old(map_file_info_builder),
                *self == *old(self),
                spec_sub_file_section(
                    old(read_buffer)@.data,
                    old(read_buffer)@.position,
                    file_size,
                    debug_file,
                    boundaries@,
                ) == spec_sub_files(
                    old(read_buffer)@.data,
                    start,
                    number_of_sub_files as nat,
                    file_size,
                    debug_file,
                    boundaries@,
                ),
                spec_sub_files(
                    old(read_buffer)@.data,
                    start,
                    number_of_sub_files as nat,
                    file_size,
                    debug_file,
                    boundaries@,
                ) == prepend_sub_files(
                    temp_sub_file_parameters@,
                    spec_sub_files(
                        read_buffer@.data,
                        read_buffer@.position,
                        (number_of_sub_files - current_sub_file) as nat,
                        file_size,
                        debug_file,
                        boundaries@,
                    ),
                ),
            decreases number_of_sub_files - current_sub_file,
        {
            let ghost before = temp_sub_file_parameters@;
            let ghost here = read_buffer@.position;
            let sub_file_parameter: SubFileParameter = match read_sub_file_parameter(
                read_buffer,
                file_size,
                debug_file,
                boundaries,
            ) {
                Ok(built) => built,
                Err(e) => {
                    proof {
                        assert(spec_sub_files(
                            read_buffer@.data,
                            here,
                            (number_of_sub_files - current_sub_file) as nat,
                            file_size,
                            debug_file,
                            boundaries@,
                        ) == Err::<(Seq<SubFileParameter>, int), MapFileException>(e));
                    }
                    return Err(e);
                },
            };
            let zoom_level_min: u8 = sub_file_parameter.zoom_level_min;
            let zoom_level_max: u8 = sub_file_parameter.zoom_level_max;
            temp_sub_file_parameters.push(sub_file_parameter);

            // the range of zoom levels of the whole file
            if zoom_level_minimum > zoom_level_min {
                zoom_level_minimum = zoom_level_min;
            }
            if zoom_level_maximum < zoom_level_max {
                zoom_level_maximum = zoom_level_max;
            }
            current_sub_file = current_sub_file + 1;
            proof {
                assert(temp_sub_file_parameters@.drop_last() =~= before);
                assert(spec_sub_file(
                    read_buffer@.data,
                    here,
                    file_size,
                    debug_file,
                    boundaries@,
                ) == Ok::<(SubFileParameter, int), MapFileException>(
                    (sub_file_parameter, read_buffer@.position),
                ));
                let rest = spec_sub_files(
                    read_buffer@.data,
                    read_buffer@.position,
                    (number_of_sub_files - current_sub_file) as nat,
                    file_size,
                    debug_file,
                    boundaries@,
                );
                if let Ok((tail, end)) = rest {
                    assert(before + (seq![sub_file_parameter] + tail)
                        =~= temp_sub_file_parameters@ + tail);
                }
            }
        }
        proof {
            assert(temp_sub_file_parameters@ + Seq::<SubFileParameter>::empty()
                =~= temp_sub_file_parameters@);
        }

        // the table that holds a sub-file for every zoom level
        let mut sub_file_parameters: Vec<SubFileParameter> = Vec::new();
        let mut zoom_level: u8 = 0;
        while zoom_level <= zoom_level_maximum
            invariant
                temp_sub_file_parameters@.len() > 0,
                zoom_level <= zoom_level_maximum + 1,
                zoom_level_maximum <= 254,
                sub_file_parameters@.len() == zoom_level,
                forall|z: int|
                    0 <= z < zoom_level ==> sub_file_parameters@[z] == sub_file_for(
                        temp_sub_file_parameters@,
                        z,
                    ),
            decreases zoom_level_maximum + 1 - zoom_level,
        {
            sub_file_parameters.push(find_sub_file(&temp_sub_file_parameters, zoom_level));
            zoom_level = zoom_level + 1;
        }
        proof {
            assert(sub_file_parameters@ =~= dense_table(temp_sub_file_parameters@));
        }

        self.sub_file_parameters = Some(sub_file_parameters);
        self.zoom_level_minimum = zoom_level_minimum;
        self.zoom_level_maximum = zoom_level_maximum;
        map_file_info_builder.number_of_sub_files = number_of_sub_files;
        map_file_info_builder.zoom_level_min = zoom_level_minimum;
        map_file_info_builder.zoom_level_max = zoom_level_maximum;
        Ok(())
    }
}

/// Every zoom level that a declared sub-file serves is answered by a
/// sub-file that serves it, and by that very sub-file where no sub-file
/// declared before it serves the level too.
pub proof fn lemma_dense_table_serves(sub_files: Seq<SubFileParameter>, index: int, zoom_level: int)
    requires
        0 <= index < sub_files.len(),
        sub_files[index].covers(zoom_level),
    ensures
        0 <= zoom_level < dense_table(sub_files).len(),
        dense_table(sub_files)[zoom_level].covers(zoom_level),
        (forall|earlier: int| 0 <= earlier < index ==> !sub_files[earlier].covers(zoom_level))
            ==> dense_table(sub_files)[zoom_level] == sub_files[index],
{
    lemma_highest_zoom_level(sub_files, index);
    lemma_first_covering(sub_files, zoom_level, 0, index);
}

/// No sub-file serves a zoom level above the highest.
pub proof fn lemma_highest_zoom_level(sub_files: Seq<SubFileParameter>, index: int)
    requires
        0 <= index < sub_files.len(),
    ensures
        sub_files[index].zoom_level_max <= highest_zoom_level(sub_files),
        lowest_zoom_level(sub_files) <= sub_files[index].zoom_level_min,
    decreases sub_files.len(),
{
    if index < sub_files.len() - 1 {
        lemma_highest_zoom_level(sub_files.drop_last(), index);
    }
}

/// A search that starts at or before a sub-file that serves the zoom level
/// finds the first such sub-file.
pub proof fn lemma_first_covering(
    sub_files: Seq<SubFileParameter>,
    zoom_level: int,
    from: int,
    index: int,
)
    requires
        0 <= from <= index < sub_files.len(),
        sub_files[index].covers(zoom_level),
    ensures
        first_covering(sub_files, zoom_level, from) matches Some(found) && from <= found <= index
            && sub_files[found].covers(zoom_level) && (forall|earlier: int|
            from <= earlier < found ==> !sub_files[earlier].covers(zoom_level)),
    decreases index - from,
{
    if !sub_files[from].covers(zoom_level) {
        lemma_first_covering(sub_files, zoom_level, from + 1, index);
    }
}

} // verus!
