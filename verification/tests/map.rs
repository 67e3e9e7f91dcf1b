use reader::index_cache::IndexCache;
use reader::reader::ReadBuffer;
use reader::{
    BoundingBox, ErrorKind, LatLong, MapFile, MapReadResult, QueryParameters, Selector,
    SubFileParameter, Tile, TileBoundary, TileGrid,
};

// ---- the projection, in floating point ----

const LATITUDE_MAX: f64 = 85.05112877980659;

fn tile_x_to_longitude(tile_x: i64, zoom_level: u8) -> f64 {
    let n = (1i64 << zoom_level) as f64;
    tile_x as f64 * 360.0 / n - 180.0
}

fn tile_y_to_latitude(tile_y: i64, zoom_level: u8) -> f64 {
    let n = (1i64 << zoom_level) as f64;
    let y = 0.5 - tile_y as f64 / n;
    90.0 - 360.0 * (-y * (2.0 * std::f64::consts::PI)).exp().atan() / std::f64::consts::PI
}

fn longitude_to_tile_x(longitude: f64, zoom_level: u8) -> i64 {
    let n = (1i64 << zoom_level) as f64;
    ((longitude + 180.0) / 360.0 * n).floor() as i64
}

fn latitude_to_tile_y(latitude: f64, zoom_level: u8) -> i64 {
    let latitude = latitude.max(-LATITUDE_MAX).min(LATITUDE_MAX);
    let n = 1i64 << zoom_level;
    let y = 0.5 - latitude.to_radians().sin().atanh() / (2.0 * std::f64::consts::PI);
    ((y * n as f64).floor() as i64).clamp(0, n - 1)
}

fn microdegrees(degrees: f64) -> i64 {
    (degrees * 1_000_000.0).round() as i64
}

fn boundaries(bounding_box: [i32; 4]) -> Vec<TileBoundary> {
    let [min_latitude, min_longitude, max_latitude, max_longitude] = bounding_box;
    (0u8..=20)
        .map(|zoom_level| TileBoundary {
            left: longitude_to_tile_x(min_longitude as f64 / 1e6, zoom_level),
            top: latitude_to_tile_y(max_latitude as f64 / 1e6, zoom_level),
            right: longitude_to_tile_x(max_longitude as f64 / 1e6, zoom_level),
            bottom: latitude_to_tile_y(min_latitude as f64 / 1e6, zoom_level),
        })
        .collect()
}

fn tile_at(longitude: f64, latitude: f64, zoom_level: u8) -> Tile {
    Tile::new(
        longitude_to_tile_x(longitude, zoom_level),
        latitude_to_tile_y(latitude, zoom_level),
        zoom_level,
        256,
    )
}

fn grid_for(
    upper_left: &Tile,
    lower_right: &Tile,
    parameters: &QueryParameters,
    sub_file: &SubFileParameter,
) -> TileGrid {
    let zoom_level = upper_left.zoom_level;
    let bounding_box = BoundingBox::new(
        microdegrees(tile_y_to_latitude(lower_right.tile_y + 1, zoom_level)),
        microdegrees(tile_x_to_longitude(upper_left.tile_x, zoom_level)),
        microdegrees(tile_y_to_latitude(upper_left.tile_y, zoom_level)),
        microdegrees(tile_x_to_longitude(lower_right.tile_x + 1, zoom_level)),
    )
    .unwrap();
    let latitudes = (parameters.from_block_y..=parameters.to_block_y)
        .map(|row| {
            microdegrees(tile_y_to_latitude(
                sub_file.boundary_tile_top + row,
                sub_file.base_zoom_level,
            ))
        })
        .collect();
    let longitudes = (parameters.from_block_x..=parameters.to_block_x)
        .map(|column| {
            microdegrees(tile_x_to_longitude(
                sub_file.boundary_tile_left + column,
                sub_file.base_zoom_level,
            ))
        })
        .collect();
    TileGrid::new(bounding_box, latitudes, longitudes)
}

fn read(map_file: &mut MapFile, tile: &Tile, selector: Selector) -> MapReadResult {
    read_range(map_file, tile, tile, selector)
}

fn read_range(
    map_file: &mut MapFile,
    upper_left: &Tile,
    lower_right: &Tile,
    selector: Selector,
) -> MapReadResult {
    let (parameters, sub_file) = map_file.plan_query(upper_left, lower_right).unwrap();
    let grid = grid_for(upper_left, lower_right, &parameters, &sub_file);
    map_file.read_map_data_impl(upper_left, lower_right, selector, &grid).unwrap()
}

// ---- a writer of map files ----

fn unsigned(mut value: u32) -> Vec<u8> {
    let mut bytes = Vec::new();
    while value >= 0x80 {
        bytes.push((value & 0x7f) as u8 | 0x80);
        value >>= 7;
    }
    bytes.push(value as u8);
    bytes
}

fn signed(value: i32) -> Vec<u8> {
    let mut magnitude = value.unsigned_abs();
    let mut bytes = Vec::new();
    while magnitude >= 0x40 {
        bytes.push((magnitude & 0x7f) as u8 | 0x80);
        magnitude >>= 7;
    }
    bytes.push(magnitude as u8 | if value < 0 { 0x40 } else { 0 });
    bytes
}

fn text(value: &str) -> Vec<u8> {
    let mut bytes = unsigned(value.len() as u32);
    bytes.extend(value.as_bytes());
    bytes
}

fn marker(prefix: &str) -> Vec<u8> {
    let mut bytes = prefix.as_bytes().to_vec();
    bytes.resize(32, b' ');
    bytes
}

#[derive(Clone)]
struct Block {
    water: bool,
    /// `None`: the index entry points nowhere.
    data: Option<Vec<u8>>,
}

#[derive(Clone)]
struct SubFile {
    base_zoom_level: u8,
    zoom_level_min: u8,
    zoom_level_max: u8,
    blocks: Vec<Block>,
}

#[derive(Clone)]
struct MapSource {
    bounding_box: [i32; 4],
    debug_file: bool,
    poi_tags: Vec<&'static str>,
    way_tags: Vec<&'static str>,
    sub_files: Vec<SubFile>,
}

impl MapSource {
    fn header(&self, file_size: i64, start_addresses: &[(i64, i64)]) -> Vec<u8> {
        let mut rest = Vec::new();
        rest.extend(3i32.to_be_bytes());
        rest.extend(file_size.to_be_bytes());
        rest.extend(1335871456973i64.to_be_bytes());
        for coordinate in self.bounding_box {
            rest.extend(coordinate.to_be_bytes());
        }
        rest.extend(256i16.to_be_bytes());
        rest.extend(text("Mercator"));
        rest.push(if self.debug_file { 0x80 } else { 0 });
        rest.extend((self.poi_tags.len() as i16).to_be_bytes());
        for tag in &self.poi_tags {
            rest.extend(text(tag));
        }
        rest.extend((self.way_tags.len() as i16).to_be_bytes());
        for tag in &self.way_tags {
            rest.extend(text(tag));
        }
        rest.push(self.sub_files.len() as u8);
        for (sub_file, (start, size)) in self.sub_files.iter().zip(start_addresses) {
            rest.push(sub_file.base_zoom_level);
            rest.push(sub_file.zoom_level_min);
            rest.push(sub_file.zoom_level_max);
            rest.extend(start.to_be_bytes());
            rest.extend(size.to_be_bytes());
        }
        // a header holds at least 70 bytes after its first 24
        while rest.len() < 70 {
            rest.push(0);
        }
        let mut header = b"mapsforge binary OSM".to_vec();
        header.extend((rest.len() as i32).to_be_bytes());
        header.extend(rest);
        header
    }

    fn sub_file_bytes(&self, sub_file: &SubFile) -> Vec<u8> {
        let mut index: Vec<u8> = Vec::new();
        let mut data: Vec<u8> = Vec::new();
        let index_size =
            sub_file.blocks.len() * 5 + if self.debug_file { 16 } else { 0 };
        if self.debug_file {
            index.extend(b"+++IndexStart+++");
        }
        for block in &sub_file.blocks {
            let mut entry: u64 = match &block.data {
                Some(_) => (index_size + data.len()) as u64,
                None => 0,
            };
            if block.water {
                entry |= 0x8000000000;
            }
            index.extend(&entry.to_be_bytes()[3..]);
            if let Some(bytes) = &block.data {
                data.extend(bytes);
            }
        }
        index.extend(data);
        index
    }

    fn bytes(&self) -> Vec<u8> {
        let sub_files: Vec<Vec<u8>> =
            self.sub_files.iter().map(|sub_file| self.sub_file_bytes(sub_file)).collect();
        let header_size = self.header(0, &vec![(0, 0); sub_files.len()]).len();
        let mut start = header_size as i64;
        let mut addresses = Vec::new();
        for sub_file in &sub_files {
            addresses.push((start, sub_file.len() as i64));
            start += sub_file.len() as i64;
        }
        let mut file = self.header(start, &addresses);
        for sub_file in sub_files {
            file.extend(sub_file);
        }
        assert_eq!(file.len() as i64, start);
        file
    }

    fn boundaries(&self) -> Vec<TileBoundary> {
        boundaries(self.bounding_box)
    }
}

/// A block: the rows of the zoom table give the numbers of POIs and ways
/// that each zoom level adds.
fn block(debug_file: bool, rows: &[(u32, u32)], pois: &[Vec<u8>], ways: &[Vec<u8>]) -> Vec<u8> {
    let mut bytes = Vec::new();
    if debug_file {
        bytes.extend(marker("###TileStart"));
    }
    for (more_pois, more_ways) in rows {
        bytes.extend(unsigned(*more_pois));
        bytes.extend(unsigned(*more_ways));
    }
    let pois: Vec<u8> = pois.concat();
    bytes.extend(unsigned(pois.len() as u32));
    bytes.extend(pois);
    bytes.extend(ways.concat());
    bytes
}

struct PoiRecord {
    latitude: i32,
    longitude: i32,
    layer: u8,
    tag_ids: Vec<u32>,
    name: Option<&'static str>,
    house_number: Option<&'static str>,
    elevation: Option<i32>,
}

fn poi(debug_file: bool, record: &PoiRecord) -> Vec<u8> {
    let mut bytes = Vec::new();
    if debug_file {
        bytes.extend(marker("***POIStart"));
    }
    bytes.extend(signed(record.latitude));
    bytes.extend(signed(record.longitude));
    bytes.push(record.layer << 4 | record.tag_ids.len() as u8);
    for id in &record.tag_ids {
        bytes.extend(unsigned(*id));
    }
    let mut features = 0u8;
    if record.name.is_some() {
        features |= 0x80;
    }
    if record.house_number.is_some() {
        features |= 0x40;
    }
    if record.elevation.is_some() {
        features |= 0x20;
    }
    bytes.push(features);
    if let Some(name) = record.name {
        bytes.extend(text(name));
    }
    if let Some(house_number) = record.house_number {
        bytes.extend(text(house_number));
    }
    if let Some(elevation) = record.elevation {
        bytes.extend(signed(elevation));
    }
    bytes
}

#[derive(Clone)]
struct WayRecord {
    tile_bitmask: u16,
    layer: u8,
    tag_ids: Vec<u32>,
    name: Option<&'static str>,
    house_number: Option<&'static str>,
    reference: Option<&'static str>,
    /// Offsets of latitude and longitude.
    label: Option<(i32, i32)>,
    double_delta: bool,
    /// Way data blocks of rings of nodes, as offsets of latitude and
    /// longitude from the tile's corner.
    data_blocks: Vec<Vec<Vec<(i32, i32)>>>,
}

fn ring(nodes: &[(i32, i32)], double_delta: bool) -> Vec<u8> {
    let mut bytes = unsigned(nodes.len() as u32);
    let mut previous = (0, 0);
    let mut previous_delta = (0, 0);
    for (index, node) in nodes.iter().enumerate() {
        let delta = (node.0 - previous.0, node.1 - previous.1);
        if double_delta && index >= 1 {
            bytes.extend(signed(delta.0 - previous_delta.0));
            bytes.extend(signed(delta.1 - previous_delta.1));
        } else {
            bytes.extend(signed(delta.0));
            bytes.extend(signed(delta.1));
        }
        previous_delta = if index >= 1 { delta } else { (0, 0) };
        previous = *node;
    }
    bytes
}

fn way(debug_file: bool, record: &WayRecord) -> Vec<u8> {
    let mut body = Vec::new();
    body.extend(record.tile_bitmask.to_be_bytes());
    body.push(record.layer << 4 | record.tag_ids.len() as u8);
    for id in &record.tag_ids {
        body.extend(unsigned(*id));
    }
    let mut features = 0u8;
    if record.name.is_some() {
        features |= 0x80;
    }
    if record.house_number.is_some() {
        features |= 0x40;
    }
    if record.reference.is_some() {
        features |= 0x20;
    }
    if record.label.is_some() {
        features |= 0x10;
    }
    if record.data_blocks.len() != 1 {
        features |= 0x08;
    }
    if record.double_delta {
        features |= 0x04;
    }
    body.push(features);
    for value in [record.name, record.house_number, record.reference].into_iter().flatten() {
        body.extend(text(value));
    }
    if let Some((latitude, longitude)) = record.label {
        body.extend(signed(longitude));
        body.extend(signed(latitude));
    }
    if record.data_blocks.len() != 1 {
        body.extend(unsigned(record.data_blocks.len() as u32));
    }
    for data_block in &record.data_blocks {
        body.extend(unsigned(data_block.len() as u32));
        for nodes in data_block {
            body.extend(ring(nodes, record.double_delta));
        }
    }
    let mut bytes = Vec::new();
    if debug_file {
        bytes.extend(marker("---WayStart"));
    }
    bytes.extend(unsigned(body.len() as u32));
    bytes.extend(body);
    bytes
}

fn plain_way(nodes: Vec<(i32, i32)>) -> WayRecord {
    WayRecord {
        tile_bitmask: 0xffff,
        layer: 0,
        tag_ids: vec![],
        name: None,
        house_number: None,
        reference: None,
        label: None,
        double_delta: false,
        data_blocks: vec![vec![nodes]],
    }
}

/// A square in the tile south-east of the origin of coordinates.
fn square() -> Vec<(i32, i32)> {
    vec![(0, 0), (0, 100000), (-100000, 100000), (-100000, 0), (0, 0)]
}

/// A map whose only block, at zoom level 8, holds the given ways; it serves
/// the zoom levels from 0 to 21.
fn map_with_ways(ways: &[WayRecord]) -> MapSource {
    let ways: Vec<Vec<u8>> = ways.iter().map(|record| way(false, record)).collect();
    let mut rows = vec![(0, 0); 22];
    rows[0] = (0, ways.len() as u32);
    MapSource {
        bounding_box: [-100000, 0, 0, 100000],
        debug_file: false,
        poi_tags: vec![],
        way_tags: vec!["highway=path", "name", "ref"],
        sub_files: vec![SubFile {
            base_zoom_level: 8,
            zoom_level_min: 0,
            zoom_level_max: 21,
            blocks: vec![Block { water: false, data: Some(block(false, &rows, &[], &ways)) }],
        }],
    }
}

fn encoding_map(double_delta: bool) -> MapSource {
    let mut record = plain_way(square());
    record.double_delta = double_delta;
    map_with_ways(&[record])
}

fn empty_map() -> MapSource {
    let sub_file = |base_zoom_level, zoom_level_min, zoom_level_max, blocks| SubFile {
        base_zoom_level,
        zoom_level_min,
        zoom_level_max,
        blocks: vec![Block { water: false, data: Some(vec![]) }; blocks],
    };
    MapSource {
        bounding_box: [100000, 200000, 300000, 400000],
        debug_file: false,
        poi_tags: vec![],
        way_tags: vec![],
        sub_files: vec![sub_file(7, 0, 7, 1), sub_file(10, 8, 11, 1), sub_file(14, 12, 21, 100)],
    }
}

fn map_with_data() -> MapSource {
    let origin_latitude = microdegrees(tile_y_to_latitude(511, 10)) as i32;
    let pois = vec![
        poi(
            true,
            &PoiRecord {
                latitude: 40000 - origin_latitude,
                longitude: 80000,
                layer: 7,
                tag_ids: vec![1, 0],
                name: Some("the name"),
                house_number: None,
                elevation: Some(-25),
            },
        ),
        poi(
            true,
            &PoiRecord {
                latitude: 50000 - origin_latitude,
                longitude: 20000,
                layer: 0,
                tag_ids: vec![],
                name: None,
                house_number: Some("12a"),
                elevation: None,
            },
        ),
    ];
    let mut first = plain_way(vec![
        (20000 - origin_latitude, 20000),
        (30000 - origin_latitude, 40000),
        (40000 - origin_latitude, 60000),
    ]);
    first.layer = 4;
    first.tag_ids = vec![0];
    let mut second =
        plain_way(vec![(60000 - origin_latitude, 10000), (70000 - origin_latitude, 10000)]);
    second.reference = Some("A 1");
    second.label = Some((5000, -5000));
    second.double_delta = true;
    let ways = vec![way(true, &first), way(true, &second)];
    MapSource {
        bounding_box: [10000, 10000, 80000, 90000],
        debug_file: true,
        poi_tags: vec!["amenity=bench", "tourism=viewpoint"],
        way_tags: vec!["highway=residential"],
        sub_files: vec![SubFile {
            base_zoom_level: 10,
            zoom_level_min: 8,
            zoom_level_max: 14,
            blocks: vec![Block {
                water: false,
                data: Some(block(
                    true,
                    &[(0, 0), (0, 1), (2, 1), (0, 0), (0, 0), (0, 0), (0, 0)],
                    &pois,
                    &ways,
                )),
            }],
        }],
    }
}

fn position(latitude: i64, longitude: i64) -> LatLong {
    LatLong::new(latitude, longitude)
}

fn degrees(position: &LatLong) -> (f64, f64) {
    (position.latitude as f64 / 1e6, position.longitude as f64 / 1e6)
}

// ---- the scenarios ----

fn run_encoding_test(map_file: &mut MapFile) {
    const ZOOM_LEVEL: u8 = 8;

    let tile = tile_at(0.0, 0.0, ZOOM_LEVEL);

    let map_read_result = read(map_file, &tile, Selector::Named);
    assert_eq!(map_read_result.poi_way_bundles.len(), 1);
    assert!(map_read_result.poi_way_bundles[0].ways.is_empty());

    let map_read_result = read(map_file, &tile, Selector::Pois);
    assert_eq!(map_read_result.poi_way_bundles.len(), 1);

    let map_read_result = read(map_file, &tile, Selector::All);
    assert_eq!(map_read_result.poi_way_bundles.len(), 1);

    let way = &map_read_result.poi_way_bundles[0].ways[0];
    let expected_coords = vec![vec![(0.0, 0.0), (0.0, 0.1), (-0.1, 0.1), (-0.1, 0.0), (0.0, 0.0)]];
    let found: Vec<Vec<(f64, f64)>> =
        way.way_nodes.iter().map(|ring| ring.iter().map(degrees).collect()).collect();
    assert_eq!(found, expected_coords);
    assert_eq!(
        way.way_nodes,
        vec![vec![
            position(0, 0),
            position(0, 100000),
            position(-100000, 100000),
            position(-100000, 0),
            position(0, 0),
        ]]
    );
}

#[test]
fn test_double_delta_encoding() {
    let source = encoding_map(true);
    let file = source.bytes();
    let mut map_file = MapFile::new(&file, 0, &source.boundaries()).unwrap();
    run_encoding_test(&mut map_file);
}

#[test]
fn test_single_delta_encoding() {
    let source = encoding_map(false);
    let file = source.bytes();
    let mut map_file = MapFile::new(&file, 0, &source.boundaries()).unwrap();
    run_encoding_test(&mut map_file);
}

#[test]
fn the_two_encodings_differ_in_their_bytes() {
    assert_ne!(encoding_map(false).bytes(), encoding_map(true).bytes());
}

#[test]
fn test_empty_map() {
    let source = empty_map();
    let file = source.bytes();
    let mut map_file = MapFile::new(&file, 0, &source.boundaries()).unwrap();

    for zoom_level in 0..=25 {
        let tile = tile_at(1.0, 1.0, zoom_level);
        let map_read_result = read(&mut map_file, &tile, Selector::All);
        assert!(map_read_result.poi_way_bundles.is_empty());
    }
}

#[test]
fn empty_map_is_empty_inside_its_bounding_box() {
    let source = empty_map();
    let file = source.bytes();
    let mut map_file = MapFile::new(&file, 0, &source.boundaries()).unwrap();
    for zoom_level in 0..=25 {
        let tile = tile_at(0.3, 0.2, zoom_level);
        for selector in [Selector::All, Selector::Pois, Selector::Named] {
            let map_read_result = read(&mut map_file, &tile, selector);
            assert!(map_read_result.poi_way_bundles.is_empty());
            assert!(!map_read_result.is_water);
        }
    }
}

#[test]
fn test_query_calculations() {
    let source = encoding_map(false);
    let file = source.bytes();
    let map_file = MapFile::new(&file, 0, &source.boundaries()).unwrap();

    for zoom_level in 0..=25 {
        let mut single = QueryParameters::new();
        let mut multi = QueryParameters::new();

        let sub_file_parameter =
            map_file.header().get_sub_file_parameter(single.query_zoom_level as usize).unwrap();
        let tile = Tile::new(zoom_level as i64, zoom_level as i64, zoom_level, 256);

        single.calculate_base_tiles(&tile, &tile, sub_file_parameter);
        multi.calculate_base_tiles_range(&tile, &tile, sub_file_parameter);

        assert_eq!(single, multi);
    }
}

#[test]
fn test_map_file_with_data() {
    let source = map_with_data();
    let file = source.bytes();
    let mut map_file = MapFile::new(&file, 0, &source.boundaries()).unwrap();

    let map_file_info = map_file.get_map_file_info().unwrap();
    assert!(map_file_info.debug_file);

    let tile = tile_at(0.04, 0.04, 10);

    let map_read_result = read(&mut map_file, &tile, Selector::All);
    assert_eq!(map_read_result.poi_way_bundles.len(), 1);

    let poi = &map_read_result.poi_way_bundles[0].pois[0];
    assert_eq!(poi.layer, 7);
    assert!(approx_equal(degrees(&poi.position).0, 0.04, 0.0001));

    assert_eq!(degrees(&poi.position).1, 0.08);
    assert_eq!(poi.tags.len(), 4);

    let way = &map_read_result.poi_way_bundles[0].ways[0];
    assert_eq!(way.layer, 4);
    assert!(way.label_position.is_none());
}

fn approx_equal(a: f64, b: f64, epsilon: f64) -> bool {
    (a - b).abs() < epsilon
}

// ---- more of the block decoder ----

#[test]
fn pois_carry_their_tags_in_order() {
    let source = map_with_data();
    let file = source.bytes();
    let mut map_file = MapFile::new(&file, 0, &source.boundaries()).unwrap();
    let result = read(&mut map_file, &tile_at(0.04, 0.04, 10), Selector::Pois);
    let bundle = &result.poi_way_bundles[0];
    assert!(bundle.ways.is_empty());
    assert_eq!(bundle.pois.len(), 2);
    let tags: Vec<(&str, &str)> =
        bundle.pois[0].tags.iter().map(|tag| (tag.key.as_str(), tag.value.as_str())).collect();
    assert_eq!(
        tags,
        vec![
            ("tourism=viewpoint", "tourism=viewpoint"),
            ("amenity=bench", "amenity=bench"),
            ("name", "the name"),
            ("ele", "-25"),
        ]
    );
    assert_eq!(bundle.pois[0].position, position(40000, 80000));
    assert_eq!(bundle.pois[1].position, position(50000, 20000));
    assert_eq!(bundle.pois[1].tags.len(), 1);
    assert_eq!(bundle.pois[1].tags[0].key, "addr:housenumber");
    assert_eq!(bundle.pois[1].tags[0].value, "12a");
}

#[test]
fn the_zoom_table_tells_how_many_features_a_zoom_level_has() {
    let source = map_with_data();
    let file = source.bytes();
    let mut map_file = MapFile::new(&file, 0, &source.boundaries()).unwrap();
    let counts = |map_file: &mut MapFile, zoom_level: u8| {
        let result = read(map_file, &tile_at(0.04, 0.04, zoom_level), Selector::All);
        let bundle = &result.poi_way_bundles[0];
        (bundle.pois.len(), bundle.ways.len())
    };
    assert_eq!(counts(&mut map_file, 8), (0, 0));
    assert_eq!(counts(&mut map_file, 9), (0, 1));
    assert_eq!(counts(&mut map_file, 10), (2, 2));
}

#[test]
fn named_items_are_among_all_items() {
    let source = map_with_data();
    let file = source.bytes();
    let mut map_file = MapFile::new(&file, 0, &source.boundaries()).unwrap();
    let tile = tile_at(0.04, 0.04, 10);
    let all = read(&mut map_file, &tile, Selector::All);
    let named = read(&mut map_file, &tile, Selector::Named);
    let pois = read(&mut map_file, &tile, Selector::Pois);
    assert_eq!(all.poi_way_bundles.len(), 1);
    assert_eq!(named.poi_way_bundles.len(), 1);
    assert_eq!(pois.poi_way_bundles.len(), 1);
    assert_eq!(all.poi_way_bundles[0].ways.len(), 2);
    assert_eq!(named.poi_way_bundles[0].ways.len(), 1);
    assert!(pois.poi_way_bundles[0].ways.is_empty());
    let named_way = &named.poi_way_bundles[0].ways[0];
    let same = &all.poi_way_bundles[0].ways[1];
    assert_eq!(named_way.way_nodes, same.way_nodes);
    assert_eq!(named_way.tags.len(), 1);
    assert_eq!(named_way.tags[0].key, "ref");
    assert_eq!(named_way.tags[0].value, "A 1");
    for result in [&named, &pois] {
        assert_eq!(result.poi_way_bundles[0].pois.len(), all.poi_way_bundles[0].pois.len());
    }
}

#[test]
fn a_label_lies_at_its_offsets_from_the_first_node() {
    let source = map_with_data();
    let file = source.bytes();
    let mut map_file = MapFile::new(&file, 0, &source.boundaries()).unwrap();
    let result = read(&mut map_file, &tile_at(0.04, 0.04, 10), Selector::All);
    let way = &result.poi_way_bundles[0].ways[1];
    assert_eq!(way.way_nodes, vec![vec![position(60000, 10000), position(70000, 10000)]]);
    assert_eq!(way.label_position, Some(position(65000, 5000)));
}

#[test]
fn a_way_with_a_name_tag_is_named() {
    let mut tagged = plain_way(square());
    tagged.tag_ids = vec![1];
    let untagged = plain_way(square());
    let source = map_with_ways(&[untagged, tagged]);
    let file = source.bytes();
    let mut map_file = MapFile::new(&file, 0, &source.boundaries()).unwrap();
    let tile = tile_at(0.0, 0.0, 8);
    assert_eq!(read(&mut map_file, &tile, Selector::All).poi_way_bundles[0].ways.len(), 2);
    let named = read(&mut map_file, &tile, Selector::Named);
    assert_eq!(named.poi_way_bundles[0].ways.len(), 1);
    assert_eq!(named.poi_way_bundles[0].ways[0].tags[0].key, "name");
}

#[test]
fn each_way_data_block_is_a_way() {
    let mut record = plain_way(square());
    record.name = Some("twice");
    record.data_blocks = vec![
        vec![square(), vec![(-20000, 20000), (-30000, 30000)]],
        vec![vec![(-1, 1), (-2, 2), (-3, 3)]],
    ];
    for double_delta in [false, true] {
        record.double_delta = double_delta;
        let source = map_with_ways(&[record.clone()]);
        let file = source.bytes();
        let mut map_file = MapFile::new(&file, 0, &source.boundaries()).unwrap();
        let result = read(&mut map_file, &tile_at(0.0, 0.0, 8), Selector::Named);
        let ways = &result.poi_way_bundles[0].ways;
        assert_eq!(ways.len(), 2);
        assert_eq!(ways[0].way_nodes.len(), 2);
        assert_eq!(ways[0].way_nodes[1], vec![position(-20000, 20000), position(-30000, 30000)]);
        assert_eq!(
            ways[1].way_nodes,
            vec![vec![position(-1, 1), position(-2, 2), position(-3, 3)]]
        );
        assert_eq!(ways[1].tags[0].value, "twice");
    }
}

#[test]
fn a_longitude_just_past_the_date_line_snaps() {
    let record = plain_way(vec![(0, 180_000_500), (-10, 179_999_000), (-20, 180_001_500)]);
    let source = map_with_ways(&[record]);
    let file = source.bytes();
    let mut map_file = MapFile::new(&file, 0, &source.boundaries()).unwrap();
    let result = read(&mut map_file, &tile_at(0.0, 0.0, 8), Selector::All);
    assert_eq!(
        result.poi_way_bundles[0].ways[0].way_nodes[0],
        // the second node is counted from the first as it was snapped
        vec![position(0, 180_000_000), position(-10, 179_998_500), position(-20, 180_001_000)]
    );
}

#[test]
fn a_ring_of_one_node_is_invalid_and_drops_the_block() {
    let source = map_with_ways(&[plain_way(vec![(0, 0)])]);
    let file = source.bytes();
    let mut map_file = MapFile::new(&file, 0, &source.boundaries()).unwrap();
    let tile = tile_at(0.0, 0.0, 8);
    assert!(read(&mut map_file, &tile, Selector::All).poi_way_bundles.is_empty());
    // the points of the block can still be read
    assert_eq!(read(&mut map_file, &tile, Selector::Pois).poi_way_bundles.len(), 1);
    let (parameters, sub_file) = map_file.plan_query(&tile, &tile).unwrap();
    let grid = grid_for(&tile, &tile, &parameters, &sub_file);
    let mut buffer = ReadBuffer::new(&file);
    let start = sub_file.start_address as u64 + 5;
    assert_eq!(buffer.read_from_file_at_offset(start, file.len() - start as usize), Ok(true));
    let error = map_file
        .process_block(&parameters, &sub_file, &grid.bounding_box, 0, 0, Selector::All, &mut buffer)
        .unwrap_err();
    assert_eq!(error.kind, ErrorKind::InvalidEncoding);
    assert_eq!(error.value, 1);
}

#[test]
fn a_tag_id_without_a_tag_ends_the_query() {
    let mut record = plain_way(square());
    record.tag_ids = vec![3];
    let source = map_with_ways(&[record]);
    let file = source.bytes();
    let mut map_file = MapFile::new(&file, 0, &source.boundaries()).unwrap();
    let tile = tile_at(0.0, 0.0, 8);
    let (parameters, sub_file) = map_file.plan_query(&tile, &tile).unwrap();
    let grid = grid_for(&tile, &tile, &parameters, &sub_file);
    let error = map_file.read_map_data(&tile, &grid).unwrap_err();
    assert_eq!(error.kind, ErrorKind::InvalidTagId);
    assert_eq!(error.value, 3);
    assert!(map_file.read_poi_data(&tile, &grid).is_ok());
}

#[test]
fn a_missing_marker_ends_the_query() {
    let mut source = map_with_data();
    let data = source.sub_files[0].blocks[0].data.as_mut().unwrap();
    data[0] = b'?';
    let file = source.bytes();
    let mut map_file = MapFile::new(&file, 0, &source.boundaries()).unwrap();
    let tile = tile_at(0.04, 0.04, 10);
    let (parameters, sub_file) = map_file.plan_query(&tile, &tile).unwrap();
    let grid = grid_for(&tile, &tile, &parameters, &sub_file);
    let error = map_file.read_named_items(&tile, &grid).unwrap_err();
    assert_eq!(error.kind, ErrorKind::InvalidSignature);
}

// ---- zooming in: the bitmask and the filters ----

/// The tile at zoom level 10 that holds the square's south-east corner.
fn south_east() -> Tile {
    tile_at(0.09, -0.09, 10)
}

#[test]
fn a_way_that_shares_no_bit_with_the_query_is_skipped() {
    let mut off = plain_way(square());
    off.tile_bitmask = 0x7fff;
    let mut on = plain_way(square());
    on.tile_bitmask = 0x8000;
    on.name = Some("kept");
    let source = map_with_ways(&[off, on]);
    let file = source.bytes();
    let mut map_file = MapFile::new(&file, 0, &source.boundaries()).unwrap();
    let tile = south_east();
    let (parameters, _) = map_file.plan_query(&tile, &tile).unwrap();
    assert!(parameters.use_tile_bitmask);
    assert_eq!(parameters.query_tile_bitmask, 0x8000);
    let result = read(&mut map_file, &tile, Selector::All);
    let ways = &result.poi_way_bundles[0].ways;
    assert_eq!(ways.len(), 1);
    assert_eq!(ways[0].tags[0].value, "kept");
    // at the base zoom level no bitmask is used
    let result = read(&mut map_file, &tile_at(0.0, 0.0, 8), Selector::All);
    assert_eq!(result.poi_way_bundles[0].ways.len(), 2);
}

#[test]
fn ways_far_from_the_tile_are_left_out_when_zooming_in() {
    // the tile at zoom level 12 at 0.3 degrees east and south
    let tile = tile_at(0.3, -0.3, 12);
    let near = plain_way(vec![(-300000, 300000), (-310000, 310000)]);
    let far = plain_way(square());
    let source = map_with_ways(&[far, near]);
    let file = source.bytes();
    let mut map_file = MapFile::new(&file, 0, &source.boundaries()).unwrap();
    let result = read(&mut map_file, &tile, Selector::All);
    assert_eq!(result.poi_way_bundles[0].ways.len(), 1);
    assert_eq!(result.poi_way_bundles[0].ways[0].way_nodes[0][0], position(-300000, 300000));
    map_file.set_way_filter(false, 20);
    let result = read(&mut map_file, &tile, Selector::All);
    assert_eq!(result.poi_way_bundles[0].ways.len(), 2);
}

#[test]
fn the_way_filter_reaches_its_distance_past_the_tile() {
    let tile = tile_at(0.3, -0.3, 12);
    let (parameters, sub_file) = (QueryParameters::new(), SubFileParameter {
        base_zoom_level: 8,
        blocks_height: 1,
        blocks_width: 1,
        boundary_tile_bottom: 128,
        boundary_tile_left: 128,
        boundary_tile_right: 128,
        boundary_tile_top: 128,
        index_end_address: 0,
        index_start_address: 0,
        number_of_blocks: 1,
        start_address: 0,
        sub_file_size: 0,
        zoom_level_max: 21,
        zoom_level_min: 0,
    });
    let grid = grid_for(&tile, &tile, &parameters, &sub_file);
    let east = grid.bounding_box.max_longitude as i32;
    let south = grid.bounding_box.min_latitude as i32;
    // 20 metres are 180 micro-degrees
    let inside = plain_way(vec![(south, east + 180), (south - 5000, east + 5000)]);
    let outside = plain_way(vec![(south, east + 181), (south - 5000, east + 5000)]);
    let source = map_with_ways(&[inside, outside]);
    let file = source.bytes();
    let mut map_file = MapFile::new(&file, 0, &source.boundaries()).unwrap();
    let result = read(&mut map_file, &tile, Selector::All);
    let ways = &result.poi_way_bundles[0].ways;
    assert_eq!(ways.len(), 1);
    assert_eq!(ways[0].way_nodes[0][0], position(south as i64, east as i64 + 180));
    map_file.set_way_filter(true, 21);
    assert_eq!(read(&mut map_file, &tile, Selector::All).poi_way_bundles[0].ways.len(), 2);
}

#[test]
fn pois_outside_the_tile_are_left_out_when_zooming_in() {
    let source = map_with_data();
    let file = source.bytes();
    let mut map_file = MapFile::new(&file, 0, &source.boundaries()).unwrap();
    // the sub-file serves zoom levels up to 14 from blocks of zoom level 10
    let result = read(&mut map_file, &tile_at(0.08, 0.04, 14), Selector::Pois);
    let pois = &result.poi_way_bundles[0].pois;
    assert_eq!(pois.len(), 1);
    assert_eq!(pois[0].position, position(40000, 80000));
    let result = read(&mut map_file, &tile_at(0.02, 0.05, 14), Selector::Pois);
    assert_eq!(result.poi_way_bundles[0].pois.len(), 1);
    assert_eq!(result.poi_way_bundles[0].pois[0].position, position(50000, 20000));
}

// ---- the facade ----

#[test]
fn a_query_above_the_largest_zoom_level_is_answered_there() {
    let source = map_with_data();
    let file = source.bytes();
    let map_file = MapFile::new(&file, 0, &source.boundaries()).unwrap();
    let plan = |zoom_level: u8| {
        let tile = tile_at(0.04, 0.04, zoom_level);
        map_file.plan_query(&tile, &tile).unwrap().0
    };
    assert_eq!(plan(25).query_zoom_level, 14);
    assert_eq!(plan(15).query_zoom_level, 14);
    assert_eq!(plan(14).query_zoom_level, 14);
    assert_eq!(plan(12).query_zoom_level, 12);
    assert_eq!(plan(9).query_zoom_level, 9);
    assert_eq!(plan(8).query_zoom_level, 8);
    assert_eq!(plan(7).query_zoom_level, 8);
    assert_eq!(plan(0).query_zoom_level, 8);
    assert_eq!(map_file.header().get_query_zoom_level(200), 14);
    assert_eq!(map_file.header().get_query_zoom_level(3), 8);
}

#[test]
fn queries_are_held_to_the_restricted_zoom_range() {
    let source = map_with_data();
    let file = source.bytes();
    let mut map_file = MapFile::new(&file, 0, &source.boundaries()).unwrap();
    map_file.restrict_to_zoom_range(9, 10);
    let tile = tile_at(0.04, 0.04, 12);
    assert_eq!(map_file.plan_query(&tile, &tile).unwrap().0.query_zoom_level, 10);
    let tile = tile_at(0.04, 0.04, 4);
    assert_eq!(map_file.plan_query(&tile, &tile).unwrap().0.query_zoom_level, 9);
}

#[test]
fn a_rectangle_that_ends_before_it_starts_is_invalid() {
    let source = encoding_map(false);
    let file = source.bytes();
    let mut map_file = MapFile::new(&file, 0, &source.boundaries()).unwrap();
    let grid = TileGrid::new(BoundingBox::new(0, 0, 0, 0).unwrap(), vec![0], vec![0]);
    let left = Tile::new(128, 128, 8, 256);
    let right = Tile::new(129, 128, 8, 256);
    let below = Tile::new(128, 129, 8, 256);
    for (upper_left, lower_right) in [(&right, &left), (&below, &left)] {
        let error = map_file
            .read_map_data_impl(upper_left, lower_right, Selector::All, &grid)
            .unwrap_err();
        assert_eq!(error.kind, ErrorKind::InvalidRange);
        assert_eq!(
            map_file.plan_query(upper_left, lower_right).unwrap_err().kind,
            ErrorKind::InvalidRange
        );
    }
    assert!(map_file.plan_query(&left, &right).is_ok());
    // tiles that are none
    let outside = Tile::new(256, 0, 8, 256);
    assert_eq!(map_file.plan_query(&left, &outside).unwrap_err().kind, ErrorKind::InvalidRange);
    let other = Tile::new(300, 300, 9, 256);
    assert_eq!(map_file.plan_query(&left, &other).unwrap_err().kind, ErrorKind::InvalidRange);
}

#[test]
fn a_grid_that_lacks_a_row_is_invalid() {
    let source = encoding_map(false);
    let file = source.bytes();
    let mut map_file = MapFile::new(&file, 0, &source.boundaries()).unwrap();
    let tile = tile_at(0.0, 0.0, 8);
    let bounding_box = BoundingBox::new(-1406250, 0, 0, 1406250).unwrap();
    let grid = TileGrid::new(bounding_box, vec![], vec![0]);
    assert_eq!(map_file.read_map_data(&tile, &grid).unwrap_err().kind, ErrorKind::InvalidRange);
    let grid = TileGrid::new(bounding_box, vec![0], vec![190_000_000]);
    assert!(!grid.check_valid());
    assert_eq!(map_file.read_map_data(&tile, &grid).unwrap_err().kind, ErrorKind::InvalidRange);
    let grid = TileGrid::new(bounding_box, vec![0], vec![0]);
    assert!(grid.check_valid());
    assert_eq!(map_file.read_map_data(&tile, &grid).unwrap().poi_way_bundles.len(), 1);
}

#[test]
fn a_query_reads_every_block_of_its_rectangle() {
    // four blocks at zoom level 8 around the origin of coordinates
    let block_with = |nodes: Vec<(i32, i32)>| {
        let mut rows = vec![(0, 0); 22];
        rows[0] = (0, 1);
        Some(block(false, &rows, &[], &[way(false, &plain_way(nodes))]))
    };
    let source = MapSource {
        bounding_box: [-100000, -100000, 100000, 100000],
        debug_file: false,
        poi_tags: vec![],
        way_tags: vec![],
        sub_files: vec![SubFile {
            base_zoom_level: 8,
            zoom_level_min: 0,
            zoom_level_max: 21,
            blocks: vec![
                Block { water: true, data: block_with(vec![(-1, 1), (-2, 2)]) },
                Block { water: true, data: Some(vec![]) },
                Block { water: true, data: block_with(vec![(-3, 3), (-4, 4)]) },
                Block { water: false, data: block_with(vec![(-5, 5), (-6, 6)]) },
            ],
        }],
    };
    let file = source.bytes();
    let mut map_file = MapFile::new(&file, 0, &source.boundaries()).unwrap();
    let origin = microdegrees(tile_y_to_latitude(127, 8));

    let north_west = Tile::new(127, 127, 8, 256);
    let result = read(&mut map_file, &north_west, Selector::All);
    assert!(result.is_water);
    assert_eq!(result.poi_way_bundles.len(), 1);
    assert_eq!(
        result.poi_way_bundles[0].ways[0].way_nodes[0][0],
        position(origin - 1, -1406250 + 1)
    );

    // an empty block tells of water all the same
    let north_east = Tile::new(128, 127, 8, 256);
    let result = read(&mut map_file, &north_east, Selector::All);
    assert!(result.is_water);
    assert!(result.poi_way_bundles.is_empty());

    let south_east = Tile::new(128, 128, 8, 256);
    let result = read(&mut map_file, &south_east, Selector::All);
    assert!(!result.is_water);
    assert_eq!(result.poi_way_bundles[0].ways[0].way_nodes[0][0], position(-5, 5));

    // all four, row by row
    let result = read_range(&mut map_file, &north_west, &south_east, Selector::All);
    assert!(!result.is_water);
    let first_nodes: Vec<LatLong> =
        result.poi_way_bundles.iter().map(|bundle| bundle.ways[0].way_nodes[0][0]).collect();
    assert_eq!(
        first_nodes,
        vec![position(origin - 1, -1406250 + 1), position(-3, -1406250 + 3), position(-5, 5)]
    );
    // the upper row is water
    let result = read_range(&mut map_file, &north_west, &north_east, Selector::All);
    assert!(result.is_water);
    assert_eq!(result.poi_way_bundles.len(), 1);

    // zooming out reads the same four blocks
    let result = read(&mut map_file, &Tile::new(0, 0, 0, 256), Selector::All);
    assert_eq!(result.poi_way_bundles.len(), 3);
    // a tile apart from the map falls on the nearest block
    let apart = Tile::new(120, 127, 8, 256);
    let (parameters, _) = map_file.plan_query(&apart, &apart).unwrap();
    assert_eq!((parameters.from_block_x, parameters.to_block_x), (0, 0));
    assert_eq!((parameters.from_block_y, parameters.to_block_y), (0, 0));
    let result = read(&mut map_file, &apart, Selector::All);
    assert!(result.is_water);
    assert_eq!(result.poi_way_bundles.len(), 1);
    assert_eq!(
        result.poi_way_bundles[0].ways[0].way_nodes[0][0],
        position(origin - 1, -1406250 + 1)
    );
    let apart = Tile::new(200, 200, 8, 256);
    let result = read(&mut map_file, &apart, Selector::All);
    assert!(!result.is_water);
    assert_eq!(result.poi_way_bundles[0].ways[0].way_nodes[0][0], position(-5, 5));
}

#[test]
fn the_map_file_tells_what_its_header_says() {
    let source = map_with_data();
    let file = source.bytes();
    let mut map_file = MapFile::new(&file, 1234, &source.boundaries()).unwrap();
    assert_eq!(map_file.get_data_timestamp(&tile_at(0.0, 0.0, 3)), 1234);
    assert_eq!(map_file.start_zoom_level(), 12);
    assert_eq!(map_file.start_position(), position(45000, 50000));
    assert_eq!(map_file.get_map_languages(), None);
    let info = map_file.get_map_file_info().unwrap();
    assert_eq!(info.file_size, file.len() as i64);
    assert_eq!((info.zoom_level_min, info.zoom_level_max), (8, 14));
    assert_eq!(info.bounding_box, BoundingBox::new(10000, 10000, 80000, 90000).unwrap());
    assert_eq!(info.poi_tags.len(), 2);
    assert_eq!(info.poi_tags[1].key, "tourism=viewpoint");
    map_file.close_file_channel();
    let result = read(&mut map_file, &tile_at(0.04, 0.04, 10), Selector::All);
    assert_eq!(result.poi_way_bundles.len(), 1);
}

#[test]
fn a_truncated_file_does_not_open() {
    let source = map_with_data();
    let mut file = source.bytes();
    file.pop();
    let error = MapFile::new(&file, 0, &source.boundaries()).err().unwrap();
    assert_eq!(error.kind, ErrorKind::MalformedHeader);
    assert_eq!(error.value, file.len() as i64 + 1);
    let error = MapFile::new(&file[..30], 0, &source.boundaries()).err().unwrap();
    assert_eq!(error.kind, ErrorKind::IoError);
    let error = MapFile::new(&file[..10], 0, &source.boundaries()).err().unwrap();
    assert_eq!(error.kind, ErrorKind::IoError);
    // without the boundary tiles of the base zoom level
    let file = source.bytes();
    let error = MapFile::new(&file, 0, &source.boundaries()[..10]).err().unwrap();
    assert_eq!(error.kind, ErrorKind::InvalidRange);
    assert_eq!(error.value, 10);
}

// ---- the index cache ----

fn sub_file_of(map_file: &MapFile, zoom_level: usize) -> SubFileParameter {
    *map_file.header().get_sub_file_parameter(zoom_level).unwrap()
}

#[test]
fn index_entries_are_read_through_the_cache() {
    let source = empty_map();
    let file = source.bytes();
    let map_file = MapFile::new(&file, 0, &source.boundaries()).unwrap();
    let sub_file = sub_file_of(&map_file, 14);
    assert_eq!(sub_file.number_of_blocks, 100);
    assert_eq!(sub_file.index_start_address, sub_file.start_address);
    assert_eq!(sub_file.index_end_address, sub_file.start_address + 500);
    let other = sub_file_of(&map_file, 9);
    // a cache of one line forgets the other sub-file's line each time
    for capacity in [0, 1, 2, 64] {
        let mut cache = IndexCache::new(&file, capacity);
        for _ in 0..3 {
            for block_number in 0..100 {
                // every block is empty: it starts where the index ends
                assert_eq!(cache.get_index_entry(&sub_file, block_number), Ok(500));
                assert_eq!(cache.get_index_entry(&other, 0), Ok(5));
            }
        }
        let error = cache.get_index_entry(&sub_file, 100).unwrap_err();
        assert_eq!((error.kind, error.value), (ErrorKind::InvalidRange, 100));
        let error = cache.get_index_entry(&sub_file, -1).unwrap_err();
        assert_eq!((error.kind, error.value), (ErrorKind::InvalidRange, -1));
        cache.destroy();
        assert_eq!(cache.get_index_entry(&sub_file, 99), Ok(500));
    }
}

#[test]
fn an_index_entry_is_five_bytes_at_its_place() {
    let mut file = vec![0u8; 20];
    // block 2 of an index that starts at byte 3
    file[13..18].copy_from_slice(&[0x81, 0x02, 0x03, 0x04, 0x05]);
    let mut sub_file = SubFileParameter {
        base_zoom_level: 8,
        blocks_height: 1,
        blocks_width: 3,
        boundary_tile_bottom: 0,
        boundary_tile_left: 0,
        boundary_tile_right: 2,
        boundary_tile_top: 0,
        index_end_address: 18,
        index_start_address: 3,
        number_of_blocks: 3,
        start_address: 3,
        sub_file_size: 17,
        zoom_level_max: 8,
        zoom_level_min: 8,
    };
    let mut cache = IndexCache::new(&file, 4);
    assert_eq!(cache.get_index_entry(&sub_file, 2), Ok(0x8102030405));
    assert_eq!(cache.get_index_entry(&sub_file, 0), Ok(0));
    // the same sub-file with another index: the line is read anew
    sub_file.index_start_address = 4;
    sub_file.index_end_address = 19;
    assert_eq!(cache.get_index_entry(&sub_file, 2), Ok(0x0203040500));
    sub_file.index_start_address = 3;
    sub_file.index_end_address = 18;
    assert_eq!(cache.get_index_entry(&sub_file, 2), Ok(0x8102030405));
    // an index that the file ends in
    sub_file.index_end_address = 21;
    sub_file.number_of_blocks = 4;
    assert_eq!(cache.get_index_entry(&sub_file, 2), Ok(0));
    // an index that ends before the line
    sub_file.index_end_address = 3;
    assert_eq!(cache.get_index_entry(&sub_file, 2).unwrap_err().kind, ErrorKind::InvalidRange);
    // an index before the start of the file
    sub_file.index_start_address = -10;
    sub_file.index_end_address = 5;
    assert_eq!(cache.get_index_entry(&sub_file, 2).unwrap_err().kind, ErrorKind::IoError);
}

#[test]
fn the_second_line_of_an_index_starts_after_128_entries() {
    let mut file = vec![0u8; 3 + 130 * 5];
    file[3 + 128 * 5 + 4] = 7;
    file[3 + 129 * 5 + 4] = 9;
    let sub_file = SubFileParameter {
        base_zoom_level: 8,
        blocks_height: 1,
        blocks_width: 130,
        boundary_tile_bottom: 0,
        boundary_tile_left: 0,
        boundary_tile_right: 129,
        boundary_tile_top: 0,
        index_end_address: 3 + 130 * 5,
        index_start_address: 3,
        number_of_blocks: 130,
        start_address: 3,
        sub_file_size: 130 * 5,
        zoom_level_max: 8,
        zoom_level_min: 8,
    };
    let mut cache = IndexCache::new(&file, 1);
    assert_eq!(cache.get_index_entry(&sub_file, 129), Ok(9));
    assert_eq!(cache.get_index_entry(&sub_file, 127), Ok(0));
    assert_eq!(cache.get_index_entry(&sub_file, 128), Ok(7));
}

#[test]
fn the_index_cache_may_be_of_any_size() {
    let source = map_with_data();
    let file = source.bytes();
    for capacity in [0, 1, 3, usize::MAX] {
        let mut map_file =
            MapFile::with_index_cache_capacity(&file, 0, &source.boundaries(), capacity).unwrap();
        for _ in 0..3 {
            let result = read(&mut map_file, &tile_at(0.04, 0.04, 10), Selector::All);
            assert_eq!(result.poi_way_bundles[0].pois.len(), 2);
        }
    }
}

#[test]
fn a_first_way_past_the_end_of_the_block_drops_the_block() {
    let mut source = encoding_map(false);
    let data = source.sub_files[0].blocks[0].data.as_mut().unwrap();
    // the zoom table takes 44 bytes; then comes the offset of the first way
    assert_eq!(data[44], 0);
    data[44] = 127;
    let file = source.bytes();
    let mut map_file = MapFile::new(&file, 0, &source.boundaries()).unwrap();
    let tile = tile_at(0.0, 0.0, 8);
    assert!(read(&mut map_file, &tile, Selector::All).poi_way_bundles.is_empty());
    let (parameters, sub_file) = map_file.plan_query(&tile, &tile).unwrap();
    let grid = grid_for(&tile, &tile, &parameters, &sub_file);
    let mut buffer = ReadBuffer::new(&file);
    let start = sub_file.start_address as u64 + 5;
    assert_eq!(buffer.read_from_file_at_offset(start, file.len() - start as usize), Ok(true));
    let error = map_file
        .process_block(&parameters, &sub_file, &grid.bounding_box, 0, 0, Selector::All, &mut buffer)
        .unwrap_err();
    assert_eq!((error.kind, error.value), (ErrorKind::BufferOverrun, 127));
}

#[test]
fn a_block_whose_pointer_is_zero_is_skipped() {
    let mut source = encoding_map(false);
    source.sub_files[0].blocks[0] = Block { water: true, data: None };
    let file = source.bytes();
    let mut map_file = MapFile::new(&file, 0, &source.boundaries()).unwrap();
    let result = read(&mut map_file, &tile_at(0.0, 0.0, 8), Selector::All);
    assert!(result.poi_way_bundles.is_empty());
    assert!(result.is_water);
}

#[test]
fn the_parts_of_a_block_can_be_read_one_by_one() {
    let source = map_with_data();
    let file = source.bytes();
    let map_file = MapFile::new(&file, 0, &source.boundaries()).unwrap();
    let sub_file = sub_file_of(&map_file, 10);
    let origin = microdegrees(tile_y_to_latitude(511, 10));
    let mut buffer = ReadBuffer::new(&file);
    // the index of a debug file: a marker of 16 bytes and one entry
    let start = sub_file.start_address as u64 + 21;
    assert_eq!(buffer.read_from_file_at_offset(start, file.len() - start as usize), Ok(true));
    assert_eq!(map_file.process_block_signature(&mut buffer), Ok(()));
    assert_eq!(
        map_file.read_zoom_table(&sub_file, &mut buffer),
        Ok(vec![(0, 0), (0, 1), (2, 2), (2, 2), (2, 2), (2, 2), (2, 2)])
    );
    let first_way_offset = buffer.read_unsigned_int().unwrap() as usize;
    let first_way = buffer.get_buffer_position() + first_way_offset;
    let bounding_box = BoundingBox::new(0, 0, 0, 0).unwrap();
    let pois = map_file.process_pois(origin, 0, 2, &bounding_box, false, &mut buffer).unwrap();
    assert_eq!(pois.len(), 2);
    assert_eq!(buffer.get_buffer_position(), first_way);
    let ways = map_file
        .process_ways(
            &QueryParameters::new(),
            2,
            &bounding_box,
            false,
            origin,
            0,
            Selector::Named,
            &mut buffer,
        )
        .unwrap();
    assert_eq!(ways.len(), 1);
    assert_eq!(buffer.get_buffer_position(), buffer.get_buffer_size());
}

#[test]
fn rings_are_read_in_either_encoding() {
    let source = encoding_map(false);
    let file = source.bytes();
    let map_file = MapFile::new(&file, 0, &source.boundaries()).unwrap();
    let nodes = vec![(3, 4), (10, 20), (5, 40), (-100, 7)];
    let expected: Vec<LatLong> =
        nodes.iter().map(|node| position(1000 + node.0 as i64, 2000 + node.1 as i64)).collect();
    for double_delta in [false, true] {
        // the ring with its number of nodes, as one way data block
        let mut bytes = vec![1];
        bytes.extend(ring(&nodes, double_delta));
        let mut buffer = ReadBuffer::new(&bytes);
        assert_eq!(buffer.read_from_file(bytes.len()), Ok(true));
        let rings = map_file.process_way_data_block(1000, 2000, double_delta, &mut buffer).unwrap();
        assert_eq!(rings, vec![expected.clone()]);
        assert_eq!(buffer.get_buffer_position(), bytes.len());
        assert_eq!(buffer.set_buffer_position(2), Ok(()));
        let found = if double_delta {
            map_file.decode_way_nodes_double_delta(4, 1000, 2000, &mut buffer)
        } else {
            map_file.decode_way_nodes_single_delta(4, 1000, 2000, &mut buffer)
        };
        assert_eq!(found, Ok(expected.clone()));
        // one node more than there is
        assert_eq!(buffer.set_buffer_position(2), Ok(()));
        let error = map_file.decode_way_nodes_single_delta(5, 1000, 2000, &mut buffer).unwrap_err();
        assert_eq!(error.kind, ErrorKind::InvalidEncoding);
    }
}

#[test]
fn ways_and_labels_are_looked_for() {
    let tags = |keys: &[&str]| -> Vec<reader::Tag> {
        keys.iter().map(|key| reader::Tag::new(key.to_string(), "x".to_string())).collect()
    };
    assert!(reader::way::has_label_tag(&tags(&["highway", "name"])));
    assert!(reader::way::has_label_tag(&tags(&["ref"])));
    assert!(!reader::way::has_label_tag(&tags(&["highway", "names", "re"])));
    assert!(!reader::way::has_label_tag(&[]));
    let bounding_box = BoundingBox::new(0, 0, 10, 10).unwrap();
    let rings =
        vec![vec![position(-1, 5), position(11, 5)], vec![position(20, 20), position(10, 0)]];
    assert!(reader::way::way_intersects_bbox(&rings, &bounding_box));
    assert!(!reader::way::way_intersects_bbox(&rings[..1], &bounding_box));
    assert!(!reader::way::way_intersects_bbox(&[], &bounding_box));
    assert_eq!(
        reader::map_file::split_at_commas("a,b"),
        vec!["a".to_string(), "b".to_string()]
    );
}

/// A file that holds nothing but the index of one sub-file of 400 blocks,
/// from byte 3 on: the entry of each block holds the block's number.
fn index_of_400_blocks() -> (Vec<u8>, SubFileParameter) {
    let mut file = vec![0u8; 3];
    for block_number in 0..400u64 {
        file.extend(&block_number.to_be_bytes()[3..]);
    }
    let sub_file = SubFileParameter {
        base_zoom_level: 8,
        blocks_height: 1,
        blocks_width: 400,
        boundary_tile_bottom: 0,
        boundary_tile_left: 0,
        boundary_tile_right: 399,
        boundary_tile_top: 0,
        index_end_address: 3 + 400 * 5,
        index_start_address: 3,
        number_of_blocks: 400,
        start_address: 3,
        sub_file_size: 400 * 5,
        zoom_level_max: 8,
        zoom_level_min: 8,
    };
    (file, sub_file)
}

#[test]
fn the_cache_forgets_the_line_used_longest_ago() {
    let (file, sub_file) = index_of_400_blocks();
    let mut cache = IndexCache::new(&file, 2);
    assert_eq!(cache.len(), 0);
    assert!(!cache.holds_line(&sub_file, 0));

    // the first line, then the second
    assert_eq!(cache.get_index_entry(&sub_file, 5), Ok(5));
    assert_eq!(cache.len(), 1);
    assert_eq!(cache.get_index_entry(&sub_file, 130), Ok(130));
    assert_eq!(cache.len(), 2);
    assert!(cache.holds_line(&sub_file, 127));
    assert!(cache.holds_line(&sub_file, 128));
    assert!(!cache.holds_line(&sub_file, 256));

    // the first line is used again, so that the second is the one to go
    assert_eq!(cache.get_index_entry(&sub_file, 6), Ok(6));
    assert_eq!(cache.len(), 2);
    assert_eq!(cache.get_index_entry(&sub_file, 300), Ok(300));
    assert_eq!(cache.len(), 2);
    assert!(cache.holds_line(&sub_file, 0));
    assert!(!cache.holds_line(&sub_file, 128));
    assert!(cache.holds_line(&sub_file, 256));

    // asking whether a line is held uses no line: the first is still the
    // older one
    assert!(cache.holds_line(&sub_file, 0));
    assert_eq!(cache.get_index_entry(&sub_file, 129), Ok(129));
    assert!(!cache.holds_line(&sub_file, 0));
    assert!(cache.holds_line(&sub_file, 256));
    assert!(cache.holds_line(&sub_file, 128));

    // a line that is read again under its key takes no second place
    let mut moved = sub_file;
    moved.index_start_address = 8;
    moved.index_end_address = 8 + 399 * 5;
    assert_eq!(cache.get_index_entry(&moved, 128), Ok(129));
    assert_eq!(cache.len(), 2);
    assert!(cache.holds_line(&sub_file, 256));

    // what cannot be read leaves the lines as they are
    assert!(cache.get_index_entry(&sub_file, 400).is_err());
    assert!(!cache.holds_line(&sub_file, -1));
    assert_eq!(cache.len(), 2);

    cache.destroy();
    assert_eq!(cache.len(), 0);
    assert!(!cache.holds_line(&sub_file, 256));
    assert_eq!(cache.get_index_entry(&sub_file, 256), Ok(256));
    assert_eq!(cache.len(), 1);
}

#[test]
fn a_cache_of_one_line_holds_the_last_line() {
    let (file, sub_file) = index_of_400_blocks();
    for capacity in [0, 1] {
        let mut cache = IndexCache::new(&file, capacity);
        for block_number in [0, 128, 1, 256, 129] {
            assert_eq!(cache.get_index_entry(&sub_file, block_number), Ok(block_number));
            assert_eq!(cache.len(), 1);
            assert!(cache.holds_line(&sub_file, block_number));
        }
        assert!(!cache.holds_line(&sub_file, 0));
    }
}
