//! An open map file and its queries.

use crate::block::{
    spec_block,
    spec_block_lookup,
    spec_zoom_table,
    prepend_rows,
    zoom_table_rows,
    BlockLookup,
    BlockQuery,
    BITMASK_INDEX_OFFSET,
    BITMASK_INDEX_WATER,
};
use crate::errors::{ErrorKind, MapFileException};
use crate::header::{
    spec_header,
    MapFileHeader,
    MapFileHeaderView,
    MapFileInfo,
    MapFileInfoView,
    SubFileParameter,
    TileBoundary,
};
use crate::index_cache::{IndexCache, LineKey, LineView};
use crate::map_data::{
    pois_view,
    rings_view,
    ways_view,
    MapReadResult,
    PoiView,
    PoiWayBundle,
    PointOfInterest,
    ResultView,
    Way,
    WayView,
};
use crate::mercator::ZOOM_LEVEL_MAX;
use crate::poi::{prepend_pois, read_poi, spec_optional_signature, spec_pois, PoiQuery};
use crate::query::{ends_query, Progress, Query, TileGrid, TileGridView};
use crate::query_parameters::QueryParameters;
use crate::reader::{advanced, ReadBuffer, MAXIMUM_BUFFER_SIZE};
use crate::ring::{decode_way_nodes, is_origin, spec_ring, COUNT_MAX};
use crate::tile::Tile;
use crate::types::{meters_to_microdegrees, tags_view, BoundingBox, LatLong};
use crate::way::{
    prepend_ways,
    read_way,
    read_way_data_block,
    spec_way,
    spec_way_data_block,
    spec_ways,
    WayQuery,
};
use vstd::prelude::*;
use vstd::string::StrSliceExecFns;
use vstd::string::StringSliceAdditionalSpecFns;

verus! {

/// The number of lines that the index cache of a map file holds.
pub const INDEX_CACHE_SIZE: usize = 64;

/// The zoom level at which a map without a start zoom level is opened.
pub const DEFAULT_START_ZOOM_LEVEL: u8 = 12;

/// Which features a query returns.
#[derive(Debug, Clone, Copy, PartialEq, Eq, Structural)]
pub enum Selector {
    /// Points and ways.
    All,
    /// Points only.
    Pois,
    /// Points, and the ways that have a name, a house number or a reference.
    Named,
}

/// The width in metres by which the box of a query grows before ways are
/// held against it, unless the map file is told otherwise.
pub const WAY_FILTER_DISTANCE: i32 = 20;

/// What a `MapFile` holds, but for its cache.
pub struct MapFileView {
    pub file: Seq<u8>,
    pub header: MapFileHeaderView,
    pub file_size: i64,
    pub timestamp: i64,
    pub zoom_level_min: u8,
    pub zoom_level_max: u8,
    pub way_filter_enabled: bool,
    pub way_filter_distance: i32,
}

impl MapFileView {
    /// What the header says of the map.
    pub open spec fn info(self) -> MapFileInfoView {
        self.header.map_file_info->0
    }

    /// How the POIs of a block are read.
    pub open spec fn poi_query(
        self,
        bounding_box: BoundingBox,
        filter_required: bool,
        tile_latitude: i64,
        tile_longitude: i64,
    ) -> PoiQuery {
        PoiQuery {
            debug_file: self.info().debug_file,
            poi_tags: self.info().poi_tags,
            tile_latitude,
            tile_longitude,
            bounding_box,
            filter_required,
        }
    }

    /// How the ways of a block are read. Where a filter is required and the
    /// map file filters ways, a way must touch the box of the query, grown
    /// by the way filter distance.
    pub open spec fn way_query(
        self,
        query_parameters: QueryParameters,
        bounding_box: BoundingBox,
        filter_required: bool,
        tile_latitude: i64,
        tile_longitude: i64,
        selector: Selector,
    ) -> WayQuery {
        WayQuery {
            debug_file: self.info().debug_file,
            way_tags: self.info().way_tags,
            tile_latitude,
            tile_longitude,
            use_tile_bitmask: query_parameters.use_tile_bitmask,
            query_tile_bitmask: query_parameters.query_tile_bitmask,
            filter: if filter_required && self.way_filter_enabled {
                Some(
                    bounding_box.spec_extend(
                        meters_to_microdegrees(self.way_filter_distance as int),
                    ),
                )
            } else {
                None
            },
            selector,
        }
    }

    /// How a block is read. A filter is required where the query's zoom
    /// level lies above the base zoom level of the sub-file.
    pub open spec fn block_query(
        self,
        query_parameters: QueryParameters,
        sub_file: SubFileParameter,
        bounding_box: BoundingBox,
        tile_latitude: i64,
        tile_longitude: i64,
        selector: Selector,
    ) -> BlockQuery {
        BlockQuery {
            poi: self.poi_query(
                bounding_box,
                query_parameters.query_zoom_level > sub_file.base_zoom_level,
                tile_latitude,
                tile_longitude,
            ),
            way: self.way_query(
                query_parameters,
                bounding_box,
                query_parameters.query_zoom_level > sub_file.base_zoom_level,
                tile_latitude,
                tile_longitude,
                selector,
            ),
            sub_file,
            query_zoom_level: query_parameters.query_zoom_level,
        }
    }
}

impl MapFileView {
    /// The map file as it is after it was opened: every zoom level may be
    /// queried, and ways are filtered at the usual distance.
    pub open spec fn opened(file: Seq<u8>, header: MapFileHeaderView, timestamp: i64)
        -> MapFileView {
        MapFileView {
            file,
            header,
            file_size: file.len() as i64,
            timestamp,
            zoom_level_min: 0,
            zoom_level_max: 255,
            way_filter_enabled: true,
            way_filter_distance: WAY_FILTER_DISTANCE,
        }
    }

    /// The zoom level held to the range that queries are restricted to.
    pub open spec fn restricted_zoom_level(self, zoom_level: u8) -> u8 {
        if zoom_level > self.zoom_level_max {
            self.zoom_level_max
        } else if zoom_level < self.zoom_level_min {
            self.zoom_level_min
        } else {
            zoom_level
        }
    }

    /// The zoom level at which a query for tiles of `zoom_level` is
    /// answered: the nearest one in the range that queries are restricted
    /// to, and from there the nearest one that the file serves.
    pub open spec fn query_zoom_level(self, zoom_level: u8) -> u8 {
        self.header.query_zoom_level(self.restricted_zoom_level(zoom_level))
    }

    /// The plan of a query for the tiles from `upper_left` to `lower_right`,
    /// and the sub-file that answers it.
    ///
    /// It fails with `InvalidRange` where the first tile lies right of or
    /// below the last, where a tile does not name a square of its zoom level,
    /// where the tiles differ in zoom level, and where the file has no
    /// sub-file for the query's zoom level.
    pub open spec fn plan(self, upper_left: Tile, lower_right: Tile) -> Result<
        (QueryParameters, SubFileParameter),
        MapFileException,
    > {
        if upper_left.tile_x > lower_right.tile_x || upper_left.tile_y > lower_right.tile_y {
            Err(MapFileException::of(ErrorKind::InvalidRange))
        } else if !upper_left.is_valid() || !lower_right.is_valid() || upper_left.zoom_level
            != lower_right.zoom_level {
            Err(MapFileException::of(ErrorKind::InvalidRange))
        } else {
            let query_zoom_level = self.query_zoom_level(upper_left.zoom_level);
            match self.header.sub_file_parameter(query_zoom_level as int) {
                None => Err(
                    MapFileException {
                        kind: ErrorKind::InvalidRange,
                        value: query_zoom_level as i64,
                    },
                ),
                Some(sub_file) => if sub_file.base_zoom_level > ZOOM_LEVEL_MAX {
                    Err(
                        MapFileException {
                            kind: ErrorKind::InvalidRange,
                            value: query_zoom_level as i64,
                        },
                    )
                } else {
                    Ok(
                        (
                            QueryParameters {
                                from_base_tile_x: 0,
                                from_base_tile_y: 0,
                                from_block_x: 0,
                                from_block_y: 0,
                                query_tile_bitmask: 0,
                                query_zoom_level: query_zoom_level as i32,
                                to_base_tile_x: 0,
                                to_base_tile_y: 0,
                                to_block_x: 0,
                                to_block_y: 0,
                                use_tile_bitmask: false,
                            }.with_base_tiles(
                                upper_left,
                                lower_right,
                                sub_file.base_zoom_level,
                            ).with_blocks(sub_file),
                            sub_file,
                        ),
                    )
                },
            }
        }
    }

    /// The answer to a query for the tiles from `upper_left` to
    /// `lower_right`.
    pub open spec fn answer(
        self,
        upper_left: Tile,
        lower_right: Tile,
        selector: Selector,
        grid: TileGridView,
    ) -> Result<ResultView, MapFileException> {
        match self.plan(upper_left, lower_right) {
            Err(e) => Err(e),
            Ok((parameters, sub_file)) => (Query {
                map: self,
                parameters,
                sub_file,
                grid,
                selector,
            }).answer(),
        }
    }
}

/// An open map file: the file, its header and a cache of its block indexes.
pub struct MapFile<'a> {
    file: &'a [u8],
    header: MapFileHeader,
    database_index_cache: IndexCache<'a>,
    file_size: i64,
    timestamp: i64,
    zoom_level_min: u8,
    zoom_level_max: u8,
    way_filter_enabled: bool,
    way_filter_distance: i32,
}

impl<'a> View for MapFile<'a> {
    type V = MapFileView;

    closed spec fn view(&self) -> MapFileView {
        MapFileView {
            file: self.file@,
            header: self.header@,
            file_size: self.file_size,
            timestamp: self.timestamp,
            zoom_level_min: self.zoom_level_min,
            zoom_level_max: self.zoom_level_max,
            way_filter_enabled: self.way_filter_enabled,
            way_filter_distance: self.way_filter_distance,
        }
    }
}

impl<'a> MapFile<'a> {
    /// The header was read and the cache holds lines of this file. A map
    /// file made by `new` is so, and every method keeps it so.
    pub closed spec fn wf(&self) -> bool {
        &&& self.database_index_cache.wf()
        &&& self.database_index_cache.source() == self.file@
        &&& self.header@.map_file_info is Some
    }

    /// A well-formed map file has read its header, which says what the map
    /// is.
    pub proof fn lemma_has_info(&self)
        requires
            self.wf(),
        ensures
            self@.header.map_file_info is Some,
    {
    }

    /// Reads one way data block: its rings of nodes.
    pub fn process_way_data_block(
        &self,
        tile_latitude: i64,
        tile_longitude: i64,
        double_delta_encoding: bool,
        read_buffer: &mut ReadBuffer,
    ) -> (r: Result<Vec<Vec<LatLong>>, MapFileException>)
        requires
            is_origin(tile_latitude as int, tile_longitude as int),
        ensures
            advanced(
                old(read_buffer)@,
                final(read_buffer)@,
                spec_way_data_block(
                    old(read_buffer)@.data,
                    old(read_buffer)@.position,
                    LatLong { latitude: tile_latitude, longitude: tile_longitude },
                    double_delta_encoding,
                ),
            ),
            match spec_way_data_block(
                old(read_buffer)@.data,
                old(read_buffer)@.position,
                LatLong { latitude: tile_latitude, longitude: tile_longitude },
                double_delta_encoding,
            ) {
                Ok((rings, _)) => r matches Ok(found) && rings_view(found@) == rings,
                Err(e) => r == Err::<Vec<Vec<LatLong>>, MapFileException>(e),
            },
    {
        read_way_data_block(tile_latitude, tile_longitude, double_delta_encoding, read_buffer)
    }

    /// Reads the nodes of a ring in double-delta encoding.
    pub fn decode_way_nodes_double_delta(
        &self,
        number_of_way_nodes: usize,
        tile_latitude: i64,
        tile_longitude: i64,
        read_buffer: &mut ReadBuffer,
    ) -> (r: Result<Vec<LatLong>, MapFileException>)
        requires
            number_of_way_nodes <= COUNT_MAX,
            is_origin(tile_latitude as int, tile_longitude as int),
        ensures
            advanced(
                old(read_buffer)@,
                final(read_buffer)@,
                spec_ring(
                    old(read_buffer)@.data,
                    old(read_buffer)@.position,
                    number_of_way_nodes as nat,
                    LatLong { latitude: tile_latitude, longitude: tile_longitude },
                    true,
                ),
            ),
            match spec_ring(
                old(read_buffer)@.data,
                old(read_buffer)@.position,
                number_of_way_nodes as nat,
                LatLong { latitude: tile_latitude, longitude: tile_longitude },
                true,
            ) {
                Ok((nodes, _)) => r matches Ok(found) && found@ == nodes,
                Err(e) => r == Err::<Vec<LatLong>, MapFileException>(e),
            },
    {
        decode_way_nodes(number_of_way_nodes, tile_latitude, tile_longitude, true, read_buffer)
    }

    /// Reads the nodes of a ring in single-delta encoding.
    pub fn decode_way_nodes_single_delta(
        &self,
        number_of_way_nodes: usize,
        tile_latitude: i64,
        tile_longitude: i64,
        read_buffer: &mut ReadBuffer,
    ) -> (r: Result<Vec<LatLong>, MapFileException>)
        requires
            number_of_way_nodes <= COUNT_MAX,
            is_origin(tile_latitude as int, tile_longitude as int),
        ensures
            advanced(
                old(read_buffer)@,
                final(read_buffer)@,
                spec_ring(
                    old(read_buffer)@.data,
                    old(read_buffer)@.position,
                    number_of_way_nodes as nat,
                    LatLong { latitude: tile_latitude, longitude: tile_longitude },
                    false,
                ),
            ),
            match spec_ring(
                old(read_buffer)@.data,
                old(read_buffer)@.position,
                number_of_way_nodes as nat,
                LatLong { latitude: tile_latitude, longitude: tile_longitude },
                false,
            ) {
                Ok((nodes, _)) => r matches Ok(found) && found@ == nodes,
                Err(e) => r == Err::<Vec<LatLong>, MapFileException>(e),
            },
    {
        decode_way_nodes(number_of_way_nodes, tile_latitude, tile_longitude, false, read_buffer)
    }

    /// Reads `number_of_pois` POI records and returns those that are kept.
    pub fn process_pois(
        &self,
        tile_latitude: i64,
        tile_longitude: i64,
        number_of_pois: u64,
        bounding_box: &BoundingBox,
        filter_required: bool,
        read_buffer: &mut ReadBuffer,
    ) -> (r: Result<Vec<PointOfInterest>, MapFileException>)
        requires
            self.wf(),
            is_origin(tile_latitude as int, tile_longitude as int),
        ensures
            advanced(
                old(read_buffer)@,
                final(read_buffer)@,
                spec_pois(
                    old(read_buffer)@.data,
                    old(read_buffer)@.position,
                    number_of_pois as nat,
                    self@.poi_query(*bounding_box, filter_required, tile_latitude, tile_longitude),
                ),
            ),
            match spec_pois(
                old(read_buffer)@.data,
                old(read_buffer)@.position,
                number_of_pois as nat,
                self@.poi_query(*bounding_box, filter_required, tile_latitude, tile_longitude),
            ) {
                Ok((pois, _)) => r matches Ok(found) && pois_view(found@) == pois,
                Err(e) => r == Err::<Vec<PointOfInterest>, MapFileException>(e),
            },
    {
        let info: &MapFileInfo = match self.header.get_map_file_info() {
            Some(info) => info,
            None => {
                return Err(MapFileException::new(ErrorKind::InvalidRange, 0));
            },
        };
        let ghost query = self@.poi_query(
            *bounding_box,
            filter_required,
            tile_latitude,
            tile_longitude,
        );
        let ghost start = read_buffer@.position;
        let mut pois: Vec<PointOfInterest> = Vec::new();
        let mut done: u64 = 0;
        while done < number_of_pois
            invariant
                done <= number_of_pois,
                is_origin(tile_latitude as int, tile_longitude as int),
                query == self@.poi_query(
                    *bounding_box,
                    filter_required,
                    tile_latitude,
                    tile_longitude,
                ),
                self@.header.map_file_info == Some(info@),
                old(read_buffer)@.same_region(read_buffer@),
                start == old(read_buffer)@.position,
                spec_pois(old(read_buffer)@.data, start, number_of_pois as nat, query)
                    == prepend_pois(
                    pois_view(pois@),
                    spec_pois(
                        read_buffer@.data,
                        read_buffer@.position,
                        (number_of_pois - done) as nat,
                        query,
                    ),
                ),
            decreases number_of_pois - done,
        {
            let ghost before = pois_view(pois@);
            let poi: PointOfInterest = match read_poi(
                info.debug_file,
                info.poi_tags.as_slice(),
                tile_latitude,
                tile_longitude,
                read_buffer,
                Ghost(query),
            ) {
                Ok(poi) => poi,
                Err(e) => {
                    return Err(e);
                },
            };
            let ghost found = poi@;
            proof {
                let rest = spec_pois(
                    read_buffer@.data,
                    read_buffer@.position,
                    (number_of_pois - done - 1) as nat,
                    query,
                );
                if let Ok((tail, end)) = rest {
                    assert(before + (seq![found] + tail) =~= before.push(found) + tail);
                }
            }
            if !filter_required || bounding_box.contains(
                poi.position.latitude,
                poi.position.longitude,
            ) {
                pois.push(poi);
                proof {
                    assert(pois_view(pois@) =~= before.push(found));
                }
            }
            done = done + 1;
        }
        proof {
            assert(pois_view(pois@) + Seq::<PoiView>::empty() =~= pois_view(pois@));
        }
        Ok(pois)
    }

    /// Reads the marker of a block, which only a debug file has.
    pub fn process_block_signature(&self, read_buffer: &mut ReadBuffer) -> (r: Result<
        (),
        MapFileException,
    >)
        requires
            self.wf(),
        ensures
            old(read_buffer)@.read(
                final(read_buffer)@,
                r,
                spec_optional_signature(
                    self@.info().debug_file,
                    old(read_buffer)@.data,
                    old(read_buffer)@.position,
                    "###TileStart".spec_bytes(),
                ),
            ),
    {
        let debug_file: bool = match self.header.get_map_file_info() {
            Some(info) => info.debug_file,
            None => false,
        };
        if debug_file {
            read_buffer.read_signature("###TileStart".as_bytes())
        } else {
            Ok(())
        }
    }

    /// Reads the zoom table of a block: for each zoom level that the
    /// sub-file serves, the numbers of POIs and of ways up to that level.
    pub fn read_zoom_table(
        &self,
        sub_file_parameter: &SubFileParameter,
        read_buffer: &mut ReadBuffer,
    ) -> (r: Result<Vec<(u64, u64)>, MapFileException>)
        ensures
            advanced(
                old(read_buffer)@,
                final(read_buffer)@,
                spec_zoom_table(
                    old(read_buffer)@.data,
                    old(read_buffer)@.position,
                    zoom_table_rows(*sub_file_parameter),
                    0,
                    0,
                ),
            ),
            match spec_zoom_table(
                old(read_buffer)@.data,
                old(read_buffer)@.position,
                zoom_table_rows(*sub_file_parameter),
                0,
                0,
            ) {
                Ok((table, _)) => r matches Ok(found) && found@ == table,
                Err(e) => r == Err::<Vec<(u64, u64)>, MapFileException>(e),
            },
    {
        let rows: u16 = if sub_file_parameter.zoom_level_max < sub_file_parameter.zoom_level_min {
            0
        } else {
            (sub_file_parameter.zoom_level_max - sub_file_parameter.zoom_level_min) as u16 + 1
        };
        let ghost start = read_buffer@.position;
        let mut zoom_table: Vec<(u64, u64)> = Vec::new();
        let mut cumulated_number_of_pois: u64 = 0;
        let mut cumulated_number_of_ways: u64 = 0;
        let mut row: u16 = 0;
        while row < rows
            invariant
                row <= rows <= 256,
                rows == zoom_table_rows(*sub_file_parameter),
                old(read_buffer)@.same_region(read_buffer@),
                start == old(read_buffer)@.position,
                cumulated_number_of_pois <= row * 0x1_0000_0000,
                cumulated_number_of_ways <= row * 0x1_0000_0000,
                spec_zoom_table(old(read_buffer)@.data, start, rows as nat, 0, 0) == prepend_rows(
                    zoom_table@,
                    spec_zoom_table(
                        read_buffer@.data,
                        read_buffer@.position,
                        (rows - row) as nat,
                        cumulated_number_of_pois as nat,
                        cumulated_number_of_ways as nat,
                    ),
                ),
            decreases rows - row,
        {
            let ghost before = zoom_table@;
            let more_pois: u32 = match read_buffer.read_unsigned_int() {
                Ok(value) => value,
                Err(e) => {
                    return Err(e);
                },
            };
            let more_ways: u32 = match read_buffer.read_unsigned_int() {
                Ok(value) => value,
                Err(e) => {
                    return Err(e);
                },
            };
            cumulated_number_of_pois = cumulated_number_of_pois + more_pois as u64;
            cumulated_number_of_ways = cumulated_number_of_ways + more_ways as u64;
            zoom_table.push((cumulated_number_of_pois, cumulated_number_of_ways));
            row = row + 1;
            proof {
                let rest = spec_zoom_table(
                    read_buffer@.data,
                    read_buffer@.position,
                    (rows - row) as nat,
                    cumulated_number_of_pois as nat,
                    cumulated_number_of_ways as nat,
                );
                let entry = (cumulated_number_of_pois, cumulated_number_of_ways);
                if let Ok((tail, end)) = rest {
                    assert(before + (seq![entry] + tail) =~= zoom_table@ + tail);
                }
            }
        }
        proof {
            assert(zoom_table@ + Seq::<(u64, u64)>::empty() =~= zoom_table@);
        }
        Ok(zoom_table)
    }

    /// Reads `number_of_ways` way records and returns the ways that are
    /// kept.
    pub fn process_ways(
        &self,
        query_parameters: &QueryParameters,
        number_of_ways: u64,
        bounding_box: &BoundingBox,
        filter_required: bool,
        tile_latitude: i64,
        tile_longitude: i64,
        selector: Selector,
        read_buffer: &mut ReadBuffer,
    ) -> (r: Result<Vec<Way>, MapFileException>)
        requires
            self.wf(),
            is_origin(tile_latitude as int, tile_longitude as int),
        ensures
            advanced(
                old(read_buffer)@,
                final(read_buffer)@,
                spec_ways(
                    old(read_buffer)@.data,
                    old(read_buffer)@.position,
                    number_of_ways as nat,
                    self@.way_query(
                        *query_parameters,
                        *bounding_box,
                        filter_required,
                        tile_latitude,
                        tile_longitude,
                        selector,
                    ),
                ),
            ),
            match spec_ways(
                old(read_buffer)@.data,
                old(read_buffer)@.position,
                number_of_ways as nat,
                self@.way_query(
                    *query_parameters,
                    *bounding_box,
                    filter_required,
                    tile_latitude,
                    tile_longitude,
                    selector,
                ),
            ) {
                Ok((ways, _)) => r matches Ok(found) && ways_view(found@) == ways,
                Err(e) => r == Err::<Vec<Way>, MapFileException>(e),
            },
    {
        let info: &MapFileInfo = match self.header.get_map_file_info() {
            Some(info) => info,
            None => {
                return Err(MapFileException::new(ErrorKind::InvalidRange, 0));
            },
        };
        // the box that a way must touch where ways are filtered
        let filter: Option<BoundingBox> = if filter_required && self.way_filter_enabled {
            Some(bounding_box.extend_meters(self.way_filter_distance))
        } else {
            None
        };
        let ghost query = self@.way_query(
            *query_parameters,
            *bounding_box,
            filter_required,
            tile_latitude,
            tile_longitude,
            selector,
        );
        let ghost start = read_buffer@.position;
        let mut ways: Vec<Way> = Vec::new();
        assert(ways_view(ways@) =~= Seq::<WayView>::empty());
        let mut done: u64 = 0;
        while done < number_of_ways
            invariant
                done <= number_of_ways,
                is_origin(tile_latitude as int, tile_longitude as int),
                query == self@.way_query(
                    *query_parameters,
                    *bounding_box,
                    filter_required,
                    tile_latitude,
                    tile_longitude,
                    selector,
                ),
                query.debug_file == info.debug_file,
                query.way_tags == tags_view(info.way_tags@),
                query.use_tile_bitmask == query_parameters.use_tile_bitmask,
                query.query_tile_bitmask == query_parameters.query_tile_bitmask,
                query.filter == filter,
                query.selector == selector,
                query.tile_latitude == tile_latitude,
                query.tile_longitude == tile_longitude,
                old(read_buffer)@.same_region(read_buffer@),
                start == old(read_buffer)@.position,
                spec_ways(old(read_buffer)@.data, start, number_of_ways as nat, query)
                    == prepend_ways(
                    ways_view(ways@),
                    spec_ways(
                        read_buffer@.data,
                        read_buffer@.position,
                        (number_of_ways - done) as nat,
                        query,
                    ),
                ),
            decreases number_of_ways - done,
        {
            let ghost before = ways_view(ways@);
            let ghost here = read_buffer@.position;
            match read_way(
                info.debug_file,
                info.way_tags.as_slice(),
                query_parameters.use_tile_bitmask,
                query_parameters.query_tile_bitmask,
                filter,
                tile_latitude,
                tile_longitude,
                selector,
                &mut ways,
                read_buffer,
                Ghost(query),
            ) {
                Ok(()) => {},
                Err(e) => {
                    proof {
                        assert(spec_ways(
                            read_buffer@.data,
                            here,
                            (number_of_ways - done) as nat,
                            query,
                        ) == Err::<(Seq<WayView>, int), MapFileException>(e));
                    }
                    return Err(e);
                },
            }
            done = done + 1;
            proof {
                let found = spec_way(read_buffer@.data, here, query)->Ok_0.0;
                let rest = spec_ways(
                    read_buffer@.data,
                    read_buffer@.position,
                    (number_of_ways - done) as nat,
                    query,
                );
                if let Ok((tail, end)) = rest {
                    assert(before + (found + tail) =~= (before + found) + tail);
                }
            }
        }
        proof {
            assert(ways_view(ways@) + Seq::<WayView>::empty() =~= ways_view(ways@));
        }
        Ok(ways)
    }

    /// Reads a block: its points and, unless only points are asked for, its
    /// ways.
    pub fn process_block(
        &self,
        query_parameters: &QueryParameters,
        sub_file_parameter: &SubFileParameter,
        bounding_box: &BoundingBox,
        tile_latitude: i64,
        tile_longitude: i64,
        selector: Selector,
        read_buffer: &mut ReadBuffer,
    ) -> (r: Result<PoiWayBundle, MapFileException>)
        requires
            self.wf(),
            is_origin(tile_latitude as int, tile_longitude as int),
        ensures
            old(read_buffer)@.same_region(final(read_buffer)@),
            match spec_block(
                old(read_buffer)@.data,
                old(read_buffer)@.position,
                self@.block_query(
                    *query_parameters,
                    *sub_file_parameter,
                    *bounding_box,
                    tile_latitude,
                    tile_longitude,
                    selector,
                ),
            ) {
                Ok(bundle) => r matches Ok(found) && found@ == bundle,
                Err(e) => r == Err::<PoiWayBundle, MapFileException>(e),
            },
    {
        reveal(spec_block);
        self.process_block_signature(read_buffer)?;

        let zoom_table: Vec<(u64, u64)> = self.read_zoom_table(sub_file_parameter, read_buffer)?;
        let zoom_table_row: i64 = query_parameters.query_zoom_level as i64
            - sub_file_parameter.zoom_level_min as i64;
        if zoom_table_row < 0 || zoom_table_row as usize >= zoom_table.len() {
            return Err(
                MapFileException::new(
                    ErrorKind::InvalidRange,
                    query_parameters.query_zoom_level as i64,
                ),
            );
        }
        let pois_on_query_zoom_level: u64 = zoom_table[zoom_table_row as usize].0;
        let ways_on_query_zoom_level: u64 = zoom_table[zoom_table_row as usize].1;

        // where the first way starts
        let offset: u32 = read_buffer.read_unsigned_int()?;
        let position: usize = read_buffer.get_buffer_position();
        let size: usize = read_buffer.get_buffer_size();
        if position > size || offset as u64 > (size - position) as u64 {
            return Err(MapFileException::new(ErrorKind::BufferOverrun, offset as i64));
        }
        let first_way_offset: usize = position + offset as usize;
        let filter_required: bool = query_parameters.query_zoom_level
            > sub_file_parameter.base_zoom_level as i32;

        let pois: Vec<PointOfInterest> = self.process_pois(
            tile_latitude,
            tile_longitude,
            pois_on_query_zoom_level,
            bounding_box,
            filter_required,
            read_buffer,
        )?;

        let ways: Vec<Way> = match selector {
            Selector::Pois => {
                let ways: Vec<Way> = Vec::new();
                assert(ways_view(ways@) =~= Seq::<WayView>::empty());
                ways
            },
            _ => {
                if read_buffer.get_buffer_position() > first_way_offset {
                    return Err(MapFileException::new(ErrorKind::BufferOverrun, 0));
                }
                read_buffer.set_buffer_position(first_way_offset)?;
                self.process_ways(
                    query_parameters,
                    ways_on_query_zoom_level,
                    bounding_box,
                    filter_required,
                    tile_latitude,
                    tile_longitude,
                    selector,
                    read_buffer,
                )?
            },
        };
        Ok(PoiWayBundle::new(pois, ways))
    }
}

/// What the index entries that a query has seen say of water.
struct WaterInfo {
    query_is_water: bool,
    query_read_water_info: bool,
}

/// What was found of a block.
enum LoadedBlock<'a> {
    Unknown,
    Empty(bool),
    Data(bool, ReadBuffer<'a>),
}

impl<'a> MapFile<'a> {
    /// Looks a block up in the index and loads it.
    fn load_block(&mut self, sub_file_parameter: &SubFileParameter, block_number: i128) -> (loaded:
        LoadedBlock<'a>)
        requires
            old(self).wf(),
        ensures
            final(self).wf(),
            final(self)@ == old(self)@,
            final(self).index_cache_capacity() == old(self).index_cache_capacity(),
            match spec_block_lookup(old(self)@.file, *sub_file_parameter, block_number as int) {
                BlockLookup::Unknown => loaded is Unknown,
                BlockLookup::Empty { water } => loaded matches LoadedBlock::Empty(found) && found
                    == water,
                BlockLookup::Data { water, data } => loaded matches LoadedBlock::Data(
                    found,
                    read_buffer,
                ) && found == water && read_buffer@.data == data && read_buffer@.position == 0,
            },
    {
        if block_number < i64::MIN as i128 || block_number > i64::MAX as i128 {
            return LoadedBlock::Unknown;
        }
        let block_number: i64 = block_number as i64;
        let current_block_index_entry: i64 = match self.database_index_cache.get_index_entry(
            sub_file_parameter,
            block_number,
        ) {
            Ok(entry) => entry,
            Err(_) => {
                return LoadedBlock::Unknown;
            },
        };
        let water: bool = (current_block_index_entry & BITMASK_INDEX_WATER) != 0;

        // where the block starts
        let current_block_pointer: i64 = current_block_index_entry & BITMASK_INDEX_OFFSET;
        assert(0 <= current_block_index_entry & 0x7FFFFFFFFi64 <= 0x7FFFFFFFFi64) by (bit_vector);
        if current_block_pointer == 0 || current_block_pointer > sub_file_parameter.sub_file_size {
            return LoadedBlock::Empty(water);
        }
        // where the block ends

        let next_block_pointer: i64 = if block_number + 1 == sub_file_parameter.number_of_blocks {
            sub_file_parameter.sub_file_size
        } else {
            match self.database_index_cache.get_index_entry(sub_file_parameter, block_number + 1) {
                Ok(next_entry) => {
                    let next_pointer: i64 = next_entry & BITMASK_INDEX_OFFSET;
                    assert(0 <= next_entry & 0x7FFFFFFFFi64 <= 0x7FFFFFFFFi64) by (bit_vector);
                    if next_pointer > sub_file_parameter.sub_file_size {
                        return LoadedBlock::Empty(water);
                    }
                    next_pointer
                },
                Err(_) => {
                    return LoadedBlock::Empty(water);
                },
            }
        };
        let current_block_size: i64 = next_block_pointer - current_block_pointer;
        if current_block_size <= 0 || current_block_size > MAXIMUM_BUFFER_SIZE as i64 {
            return LoadedBlock::Empty(water);
        }
        let file_position: i128 = sub_file_parameter.start_address as i128
            + current_block_pointer as i128;
        if file_position < 0 || file_position > self.file.len() as i128 {
            return LoadedBlock::Empty(water);
        }
        let mut read_buffer = ReadBuffer::new(self.file);
        match read_buffer.read_from_file_at_offset(
            file_position as u64,
            current_block_size as usize,
        ) {
            Ok(true) => LoadedBlock::Data(water, read_buffer),
            _ => LoadedBlock::Empty(water),
        }
    }

    /// Reads one block of the plan and gathers its points and ways.
    fn visit_block(
        &mut self,
        query_parameters: &QueryParameters,
        sub_file_parameter: &SubFileParameter,
        bounding_box: &BoundingBox,
        selector: Selector,
        row: i64,
        column: i64,
        tile_latitude: i64,
        tile_longitude: i64,
        result: &mut MapReadResult,
        water_info: &mut WaterInfo,
        Ghost(query): Ghost<Query>,
        Ghost(progress): Ghost<Progress>,
    ) -> (r: Result<(), MapFileException>)
        requires
            old(self).wf(),
            is_origin(tile_latitude as int, tile_longitude as int),
            query.map == old(self)@,
            query.parameters == *query_parameters,
            query.sub_file == *sub_file_parameter,
            query.grid.bounding_box == *bounding_box,
            query.selector == selector,
            tile_latitude == query.grid.latitudes[row - query.parameters.from_block_y],
            tile_longitude == query.grid.longitudes[column - query.parameters.from_block_x],
            progress == (Progress {
                bundles: old(result)@.poi_way_bundles,
                all_water: old(water_info).query_is_water,
                any_seen: old(water_info).query_read_water_info,
            }),
            !old(result)@.is_water,
        ensures
            final(self).wf(),
            final(self)@ == old(self)@,
            final(self).index_cache_capacity() == old(self).index_cache_capacity(),
            !final(result)@.is_water,
            match query.visit(progress, row as int, column as int) {
                Ok(next) => r is Ok && next == (Progress {
                    bundles: final(result)@.poi_way_bundles,
                    all_water: final(water_info).query_is_water,
                    any_seen: final(water_info).query_read_water_info,
                }),
                Err(e) => r == Err::<(), MapFileException>(e),
            },
    {
        assert(-0x4000_0000_0000_0000_0000_0000_0000_0000 <= row
            * sub_file_parameter.blocks_width <= 0x4000_0000_0000_0000_0000_0000_0000_0000)
            by (nonlinear_arith)
            requires
                -0x8000_0000_0000_0000 <= row <= 0x8000_0000_0000_0000,
                -0x8000_0000_0000_0000 <= sub_file_parameter.blocks_width
                    <= 0x8000_0000_0000_0000,
        ;
        let block_number: i128 = row as i128 * sub_file_parameter.blocks_width as i128
            + column as i128;
        match self.load_block(sub_file_parameter, block_number) {
            LoadedBlock::Unknown => {},
            LoadedBlock::Empty(water) => {
                water_info.query_is_water = water_info.query_is_water && water;
                water_info.query_read_water_info = true;
            },
            LoadedBlock::Data(water, mut read_buffer) => {
                water_info.query_is_water = water_info.query_is_water && water;
                water_info.query_read_water_info = true;
                match self.process_block(
                    query_parameters,
                    sub_file_parameter,
                    bounding_box,
                    tile_latitude,
                    tile_longitude,
                    selector,
                    &mut read_buffer,
                ) {
                    Ok(bundle) => {
                        result.add(bundle);
                    },
                    Err(e) => {
                        if is_fatal(&e) {
                            return Err(e);
                        }
                    },
                }
            },
        }
        Ok(())
    }

    /// Reads the blocks of the plan and gathers their points and ways. The
    /// map file stays as it is, but for what its cache holds.
    pub fn process_blocks(
        &mut self,
        query_parameters: &QueryParameters,
        sub_file_parameter: &SubFileParameter,
        grid: &TileGrid,
        selector: Selector,
    ) -> (r: Result<MapReadResult, MapFileException>)
        requires
            old(self).wf(),
        ensures
            final(self).wf(),
            final(self)@ == old(self)@,
            final(self).index_cache_capacity() == old(self).index_cache_capacity(),
            match (Query {
                map: old(self)@,
                parameters: *query_parameters,
                sub_file: *sub_file_parameter,
                grid: grid@,
                selector,
            }).answer() {
                Ok(answer) => r matches Ok(found) && found@ == answer,
                Err(e) => r == Err::<MapReadResult, MapFileException>(e),
            },
    {
        let ghost query = Query {
            map: self@,
            parameters: *query_parameters,
            sub_file: *sub_file_parameter,
            grid: grid@,
            selector,
        };
        if !grid.check_valid() {
            return Err(MapFileException::new(ErrorKind::InvalidRange, 0));
        }
        let mut result = MapReadResult::new();
        if query_parameters.to_block_y < query_parameters.from_block_y
            || query_parameters.to_block_x < query_parameters.from_block_x {
            // a plan made by hand may hold no block
            proof {
                if query_parameters.to_block_y >= query_parameters.from_block_y {
                    query.lemma_rows_without_columns(
                        Progress::start(),
                        query_parameters.from_block_y as int,
                    );
                }
            }
            return Ok(result);
        }
        let last_row: i128 = query_parameters.to_block_y as i128 - query_parameters.from_block_y
            as i128;
        let last_column: i128 = query_parameters.to_block_x as i128
            - query_parameters.from_block_x as i128;
        if last_row >= grid.latitudes.len() as i128 || last_column >= grid.longitudes.len()
            as i128 {
            return Err(MapFileException::new(ErrorKind::InvalidRange, 0));
        }
        let number_of_rows: usize = (last_row + 1) as usize;
        let number_of_columns: usize = (last_column + 1) as usize;

        let mut water_info = WaterInfo { query_is_water: true, query_read_water_info: false };
        let ghost mut progress = Progress::start();

        // from top to bottom and from left to right
        let mut i: usize = 0;
        while i < number_of_rows
            invariant
                i <= number_of_rows == query_parameters.to_block_y - query_parameters.from_block_y
                    + 1,
                number_of_rows <= grid.latitudes@.len(),
                number_of_columns == query_parameters.to_block_x - query_parameters.from_block_x
                    + 1,
                number_of_columns <= grid.longitudes@.len(),
                grid@.is_valid(),
                self.wf(),
                self@ == old(self)@,
                self.index_cache_capacity() == old(self).index_cache_capacity(),
                query == (Query {
                    map: old(self)@,
                    parameters: *query_parameters,
                    sub_file: *sub_file_parameter,
                    grid: grid@,
                    selector,
                }),
                progress == (Progress {
                    bundles: result@.poi_way_bundles,
                    all_water: water_info.query_is_water,
                    any_seen: water_info.query_read_water_info,
                }),
                !result@.is_water,
                query.rows(Progress::start(), query_parameters.from_block_y as int) == query.rows(
                    progress,
                    query_parameters.from_block_y + i,
                ),
            decreases number_of_rows - i,
        {
            let row: i64 = (query_parameters.from_block_y as i128 + i as i128) as i64;
            let tile_latitude: i64 = grid.latitudes[i];
            let mut j: usize = 0;
            while j < number_of_columns
                invariant
                    i < number_of_rows == query_parameters.to_block_y
                        - query_parameters.from_block_y + 1,
                    number_of_rows <= grid.latitudes@.len(),
                    j <= number_of_columns == query_parameters.to_block_x
                        - query_parameters.from_block_x + 1,
                    number_of_columns <= grid.longitudes@.len(),
                    row == query_parameters.from_block_y + i,
                    tile_latitude == grid.latitudes@[i as int],
                    grid@.is_valid(),
                    self.wf(),
                    self@ == old(self)@,
                    self.index_cache_capacity() == old(self).index_cache_capacity(),
                    query == (Query {
                        map: old(self)@,
                        parameters: *query_parameters,
                        sub_file: *sub_file_parameter,
                        grid: grid@,
                        selector,
                    }),
                    progress == (Progress {
                        bundles: result@.poi_way_bundles,
                        all_water: water_info.query_is_water,
                        any_seen: water_info.query_read_water_info,
                    }),
                    !result@.is_water,
                    query.rows(Progress::start(), query_parameters.from_block_y as int) == (
                    match query.columns(progress, row as int, query_parameters.from_block_x + j) {
                        Err(e) => Err(e),
                        Ok(next) => query.rows(next, row + 1),
                    }),
                decreases number_of_columns - j,
            {
                let column: i64 = (query_parameters.from_block_x as i128 + j as i128) as i64;
                let tile_longitude: i64 = grid.longitudes[j];
                let ghost before = progress;
                proof {
                    progress = query.visit(before, row as int, column as int)->Ok_0;
                }
                match self.visit_block(
                    query_parameters,
                    sub_file_parameter,
                    &grid.bounding_box,
                    selector,
                    row,
                    column,
                    tile_latitude,
                    tile_longitude,
                    &mut result,
                    &mut water_info,
                    Ghost(query),
                    Ghost(before),
                ) {
                    Ok(()) => {},
                    Err(e) => {
                        return Err(e);
                    },
                }
                j += 1;
            }
            i += 1;
        }
        if water_info.query_is_water && water_info.query_read_water_info {
            result.is_water = true;
        }
        Ok(result)
    }
}

/// Whether an error in a block ends the query.
fn is_fatal(error: &MapFileException) -> (fatal: bool)
    ensures
        fatal == ends_query(error.kind),
{
    match error.kind {
        ErrorKind::InvalidSignature => true,
        ErrorKind::InvalidTagId => true,
        _ => false,
    }
}

/// The pieces of a text between its commas.
pub open spec fn split_commas(text: Seq<char>) -> Seq<Seq<char>>
    decreases text.len(),
{
    if text.len() == 0 {
        seq![Seq::empty()]
    } else {
        let before = split_commas(text.drop_last());
        if text.last() == ',' {
            before.push(Seq::empty())
        } else {
            before.drop_last().push(before.last().push(text.last()))
        }
    }
}

/// What a list of texts holds.
pub open spec fn texts_view(texts: Seq<String>) -> Seq<Seq<char>> {
    Seq::new(texts.len(), |i: int| texts[i]@)
}

/// Splits a text at its commas.
pub fn split_at_commas(text: &str) -> (pieces: Vec<String>)
    ensures
        texts_view(pieces@) == split_commas(text@),
{
    let length: usize = text.unicode_len();
    let mut pieces: Vec<String> = Vec::new();
    let mut start: usize = 0;
    let mut i: usize = 0;
    assert(text@.subrange(0, 0) =~= Seq::<char>::empty());
    assert(texts_view(pieces@).push(text@.subrange(0, 0)) =~= seq![Seq::<char>::empty()]);
    while i < length
        invariant
            start <= i <= length == text@.len(),
            split_commas(text@.subrange(0, i as int)) == texts_view(pieces@).push(
                text@.subrange(start as int, i as int),
            ),
        decreases length - i,
    {
        let ghost before = split_commas(text@.subrange(0, i as int));
        let ghost done = texts_view(pieces@);
        proof {
            assert(text@.subrange(0, i + 1).drop_last() =~= text@.subrange(0, i as int));
            assert(before.last() == text@.subrange(start as int, i as int));
            assert(before.drop_last() =~= done);
        }
        if text.get_char(i) == ',' {
            let piece: String = text.substring_char(start, i).to_string();
            pieces.push(piece);
            start = i + 1;
            proof {
                assert(texts_view(pieces@) =~= before);
                assert(text@.subrange(start as int, i + 1) =~= Seq::<char>::empty());
            }
        } else {
            proof {
                assert(text@.subrange(start as int, i + 1) =~= text@.subrange(
                    start as int,
                    i as int,
                ).push(text@[i as int]));
            }
        }
        i += 1;
    }
    proof {
        assert(text@.subrange(0, length as int) =~= text@);
    }
    let ghost done = texts_view(pieces@);
    let piece: String = text.substring_char(start, length).to_string();
    pieces.push(piece);
    proof {
        assert(texts_view(pieces@) =~= done.push(text@.subrange(start as int, length as int)));
    }
    pieces
}

/// A header that was read says what the map is.
pub proof fn lemma_header_has_info(
    channel: Seq<u8>,
    start: int,
    file_size: i64,
    boundaries: Seq<TileBoundary>,
)
    ensures
        spec_header(channel, start, file_size, boundaries) matches Ok(header)
            ==> header.map_file_info is Some,
{
}

impl<'a> MapFile<'a> {
    /// The number of lines that the index cache holds at most.
    pub closed spec fn index_cache_capacity(&self) -> nat {
        self.database_index_cache.capacity()
    }

    /// The lines that the index cache holds, the one used last first.
    pub closed spec fn index_cache_lines(&self) -> Seq<(LineKey, LineView)> {
        self.database_index_cache.entries()
    }

    /// Opens the map file that `file` holds, with an index cache of 64
    /// lines. `timestamp` tells when the file was last changed, in
    /// milliseconds since 1970; `boundaries` holds, for each base zoom level
    /// from 0, the tiles that bound the map's area. A file of more than
    /// `i64::MAX` bytes fails with `TooLarge`.
    pub fn new(file: &'a [u8], timestamp: i64, boundaries: &[TileBoundary]) -> (r: Result<
        Self,
        MapFileException,
    >)
        ensures
            file@.len() > i64::MAX ==> (r matches Err(e) && e == MapFileException::of(
                ErrorKind::TooLarge,
            )),
            file@.len() <= i64::MAX ==> (match spec_header(
                file@,
                0,
                file@.len() as i64,
                boundaries@,
            ) {
                Ok(header) => r matches Ok(map_file) && map_file.wf() && map_file@
                    == MapFileView::opened(file@, header, timestamp)
                    && map_file.index_cache_capacity() == INDEX_CACHE_SIZE,
                Err(e) => r matches Err(found) && found == e,
            }),
    {
        Self::with_index_cache_capacity(file, timestamp, boundaries, INDEX_CACHE_SIZE)
    }

    /// Opens the map file as `new` does, with an index cache of `capacity`
    /// lines, but at least one and at most 1 048 576.
    pub fn with_index_cache_capacity(
        file: &'a [u8],
        timestamp: i64,
        boundaries: &[TileBoundary],
        capacity: usize,
    ) -> (r: Result<Self, MapFileException>)
        ensures
            file@.len() > i64::MAX ==> (r matches Err(e) && e == MapFileException::of(
                ErrorKind::TooLarge,
            )),
            file@.len() <= i64::MAX ==> (match spec_header(
                file@,
                0,
                file@.len() as i64,
                boundaries@,
            ) {
                Ok(header) => r matches Ok(map_file) && map_file.wf() && map_file@
                    == MapFileView::opened(file@, header, timestamp)
                    && map_file.index_cache_capacity() == IndexCache::granted_capacity(capacity),
                Err(e) => r matches Err(found) && found == e,
            }),
    {
        if file.len() as u64 > i64::MAX as u64 {
            return Err(MapFileException::new(ErrorKind::TooLarge, 0));
        }
        let file_size: i64 = file.len() as i64;
        let mut read_buffer = ReadBuffer::new(file);
        let mut header = MapFileHeader::new();
        proof {
            lemma_header_has_info(file@, 0, file_size, boundaries@);
        }
        match header.read_header(&mut read_buffer, file_size, boundaries) {
            Ok(()) => {},
            Err(e) => {
                return Err(e);
            },
        }
        let database_index_cache = IndexCache::new(file, capacity);
        Ok(
            MapFile {
                file,
                header,
                database_index_cache,
                file_size,
                timestamp,
                zoom_level_min: 0,
                zoom_level_max: u8::MAX,
                way_filter_enabled: true,
                way_filter_distance: WAY_FILTER_DISTANCE,
            },
        )
    }

    /// The header of the file.
    pub fn header(&self) -> (header: &MapFileHeader)
        ensures
            header@ == self@.header,
    {
        &self.header
    }

    /// What the header says of the map.
    pub fn get_map_file_info(&self) -> (info: Option<&MapFileInfo>)
        ensures
            match info {
                Some(found) => self@.header.map_file_info == Some(found@),
                None => self@.header.map_file_info is None,
            },
    {
        self.header.get_map_file_info()
    }

    /// When the data of a tile was last changed: when the file was.
    pub fn get_data_timestamp(&self, _tile: &Tile) -> (timestamp: i64)
        ensures
            timestamp == self@.timestamp,
    {
        self.timestamp
    }

    /// The languages that the map prefers: the pieces between the commas of
    /// the header's field, if the header has it.
    pub fn get_map_languages(&self) -> (languages: Option<Vec<String>>)
        ensures
            match languages {
                Some(found) => self@.header.map_file_info matches Some(info)
                    && info.languages_preference matches Some(text) && texts_view(found@)
                    == split_commas(text),
                None => !(self@.header.map_file_info matches Some(info)
                    && info.languages_preference is Some),
            },
    {
        match self.header.get_map_file_info() {
            Some(info) => match &info.languages_preference {
                Some(text) => Some(split_at_commas(text.as_str())),
                None => None,
            },
            None => None,
        }
    }

    /// Restricts the zoom levels at which queries are answered.
    pub fn restrict_to_zoom_range(&mut self, min_zoom: u8, max_zoom: u8)
        ensures
            final(self)@ == (MapFileView {
                zoom_level_min: min_zoom,
                zoom_level_max: max_zoom,
                ..old(self)@
            }),
            old(self).wf() ==> final(self).wf(),
            final(self).index_cache_capacity() == old(self).index_cache_capacity(),
    {
        self.zoom_level_max = max_zoom;
        self.zoom_level_min = min_zoom;
    }

    /// Tells whether ways far from the queried tiles are left out, and how
    /// far in metres a way may lie from them.
    pub fn set_way_filter(&mut self, enabled: bool, distance: i32)
        ensures
            final(self)@ == (MapFileView {
                way_filter_enabled: enabled,
                way_filter_distance: distance,
                ..old(self)@
            }),
            old(self).wf() ==> final(self).wf(),
            final(self).index_cache_capacity() == old(self).index_cache_capacity(),
    {
        self.way_filter_enabled = enabled;
        self.way_filter_distance = distance;
    }

    /// Where a view of the map starts: where the header says or, where it
    /// does not, in the middle of the map's bounding box.
    pub fn start_position(&self) -> (position: LatLong)
        requires
            self.wf(),
        ensures
            position == (match self@.info().start_position {
                Some(start) => start,
                None => LatLong {
                    latitude: crate::types::half_toward_zero(
                        self@.info().bounding_box.min_latitude
                            + self@.info().bounding_box.max_latitude,
                    ) as i64,
                    longitude: crate::types::half_toward_zero(
                        self@.info().bounding_box.min_longitude
                            + self@.info().bounding_box.max_longitude,
                    ) as i64,
                },
            }),
    {
        match self.header.get_map_file_info() {
            Some(info) => match info.start_position {
                Some(position) => position,
                None => info.bounding_box.get_center_point(),
            },
            None => LatLong::new(0, 0),
        }
    }

    /// The zoom level at which a view of the map starts: what the header
    /// says or, where it does not, 12.
    pub fn start_zoom_level(&self) -> (zoom_level: u8)
        ensures
            zoom_level == (match self@.header.map_file_info {
                Some(info) => match info.start_zoom_level {
                    Some(level) => level,
                    None => DEFAULT_START_ZOOM_LEVEL,
                },
                None => DEFAULT_START_ZOOM_LEVEL,
            }),
    {
        match self.header.get_map_file_info() {
            Some(info) => match info.start_zoom_level {
                Some(level) => level,
                None => DEFAULT_START_ZOOM_LEVEL,
            },
            None => DEFAULT_START_ZOOM_LEVEL,
        }
    }

    /// Forgets what the index cache holds: afterwards it holds no line. The
    /// map file is otherwise as before, and can still be queried.
    pub fn close_file_channel(&mut self)
        requires
            old(self).wf(),
        ensures
            final(self).wf(),
            final(self)@ == old(self)@,
            final(self).index_cache_capacity() == old(self).index_cache_capacity(),
            final(self).index_cache_lines() == Seq::<(LineKey, LineView)>::empty(),
    {
        self.database_index_cache.destroy();
    }

    /// Plans a query for the tiles from `upper_left` to `lower_right`: the
    /// blocks to read, and the sub-file to read them from.
    pub fn plan_query(&self, upper_left: &Tile, lower_right: &Tile) -> (r: Result<
        (QueryParameters, SubFileParameter),
        MapFileException,
    >)
        ensures
            r == self@.plan(*upper_left, *lower_right),
    {
        if upper_left.tile_x > lower_right.tile_x || upper_left.tile_y > lower_right.tile_y {
            return Err(MapFileException::new(ErrorKind::InvalidRange, 0));
        }
        if !upper_left.check_valid() || !lower_right.check_valid() || upper_left.zoom_level
            != lower_right.zoom_level {
            return Err(MapFileException::new(ErrorKind::InvalidRange, 0));
        }
        let restricted: u8 = if upper_left.zoom_level > self.zoom_level_max {
            self.zoom_level_max
        } else if upper_left.zoom_level < self.zoom_level_min {
            self.zoom_level_min
        } else {
            upper_left.zoom_level
        };
        let query_zoom_level: u8 = self.header.get_query_zoom_level(restricted);
        let sub_file_parameter: SubFileParameter = match self.header.get_sub_file_parameter(
            query_zoom_level as usize,
        ) {
            Some(sub_file) => *sub_file,
            None => {
                return Err(MapFileException::new(ErrorKind::InvalidRange, query_zoom_level as i64));
            },
        };
        if sub_file_parameter.base_zoom_level > ZOOM_LEVEL_MAX {
            return Err(MapFileException::new(ErrorKind::InvalidRange, query_zoom_level as i64));
        }
        let mut query_parameters = QueryParameters::new();
        query_parameters.query_zoom_level = query_zoom_level as i32;
        query_parameters.calculate_base_tiles(upper_left, lower_right, &sub_file_parameter);
        query_parameters.calculate_blocks(&sub_file_parameter);
        Ok((query_parameters, sub_file_parameter))
    }

    /// The points and ways of a tile. `grid` holds the corners of the blocks
    /// of the plan for the tile, and the box of the tile.
    pub fn read_map_data(&mut self, tile: &Tile, grid: &TileGrid) -> (r: Result<
        MapReadResult,
        MapFileException,
    >)
        requires
            old(self).wf(),
        ensures
            final(self).wf(),
            final(self)@ == old(self)@,
            final(self).index_cache_capacity() == old(self).index_cache_capacity(),
            match old(self)@.answer(*tile, *tile, Selector::All, grid@) {
                Ok(answer) => r matches Ok(found) && found@ == answer,
                Err(e) => r == Err::<MapReadResult, MapFileException>(e),
            },
    {
        self.read_map_data_impl(tile, tile, Selector::All, grid)
    }

    /// The points of a tile.
    pub fn read_poi_data(&mut self, tile: &Tile, grid: &TileGrid) -> (r: Result<
        MapReadResult,
        MapFileException,
    >)
        requires
            old(self).wf(),
        ensures
            final(self).wf(),
            final(self)@ == old(self)@,
            final(self).index_cache_capacity() == old(self).index_cache_capacity(),
            match old(self)@.answer(*tile, *tile, Selector::Pois, grid@) {
                Ok(answer) => r matches Ok(found) && found@ == answer,
                Err(e) => r == Err::<MapReadResult, MapFileException>(e),
            },
    {
        self.read_map_data_impl(tile, tile, Selector::Pois, grid)
    }

    /// The points of a tile, and its ways that have a name, a house number
    /// or a reference.
    pub fn read_named_items(&mut self, tile: &Tile, grid: &TileGrid) -> (r: Result<
        MapReadResult,
        MapFileException,
    >)
        requires
            old(self).wf(),
        ensures
            final(self).wf(),
            final(self)@ == old(self)@,
            final(self).index_cache_capacity() == old(self).index_cache_capacity(),
            match old(self)@.answer(*tile, *tile, Selector::Named, grid@) {
                Ok(answer) => r matches Ok(found) && found@ == answer,
                Err(e) => r == Err::<MapReadResult, MapFileException>(e),
            },
    {
        self.read_map_data_impl(tile, tile, Selector::Named, grid)
    }

    /// The features of the tiles from `upper_left` to `lower_right` that the
    /// selector asks for.
    pub fn read_map_data_impl(
        &mut self,
        upper_left: &Tile,
        lower_right: &Tile,
        selector: Selector,
        grid: &TileGrid,
    ) -> (r: Result<MapReadResult, MapFileException>)
        requires
            old(self).wf(),
        ensures
            final(self).wf(),
            final(self)@ == old(self)@,
            final(self).index_cache_capacity() == old(self).index_cache_capacity(),
            match old(self)@.answer(*upper_left, *lower_right, selector, grid@) {
                Ok(answer) => r matches Ok(found) && found@ == answer,
                Err(e) => r == Err::<MapReadResult, MapFileException>(e),
            },
    {
        let (query_parameters, sub_file_parameter) = match self.plan_query(
            upper_left,
            lower_right,
        ) {
            Ok(plan) => plan,
            Err(e) => {
                return Err(e);
            },
        };
        self.process_blocks(&query_parameters, &sub_file_parameter, grid, selector)
    }
}

} // verus!
