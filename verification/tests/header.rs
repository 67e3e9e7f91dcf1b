use reader::reader::ReadBuffer;
use reader::{
    BoundingBox, ErrorKind, LatLong, MapFile, MapFileHeader, SubFileParameter, TileBoundary,
};

const BOUNDING_BOX: BoundingBox = BoundingBox {
    min_latitude: 100000,
    min_longitude: 200000,
    max_latitude: 300000,
    max_longitude: 400000,
};
const COMMENT: &str = "testcomment";
const CREATED_BY: &str = "mapsforge-map-writer-0.3.1-SNAPSHOT";
const FILE_SIZE: i64 = 709;
const FILE_VERSION: i32 = 3;
const LANGUAGES_PREFERENCE: &str = "en";
const MAP_DATE: i64 = 1335871456973;
const NUMBER_OF_SUBFILES: u8 = 3;
const PROJECTION_NAME: &str = "Mercator";
const START_POSITION: LatLong = LatLong { latitude: 150000, longitude: 250000 };
const START_ZOOM_LEVEL: u8 = 16;
const TILE_PIXEL_SIZE: i32 = 256;

fn text(value: &str) -> Vec<u8> {
    assert!(value.len() < 128);
    let mut bytes = vec![value.len() as u8];
    bytes.extend(value.as_bytes());
    bytes
}

/// The fields of a header, each as its bytes.
#[derive(Clone)]
struct Fields {
    magic: Vec<u8>,
    file_version: i32,
    file_size: i64,
    map_date: i64,
    bounding_box: [i32; 4],
    tile_pixel_size: i16,
    projection_name: Vec<u8>,
    flags: u8,
    optional: Vec<u8>,
    poi_tags: Vec<u8>,
    way_tags: Vec<u8>,
    number_of_sub_files: u8,
    /// Base zoom level, least and largest zoom level, start address, size.
    sub_files: Vec<(u8, u8, u8, i64, i64)>,
}

impl Fields {
    fn rest(&self) -> Vec<u8> {
        let mut rest = Vec::new();
        rest.extend(self.file_version.to_be_bytes());
        rest.extend(self.file_size.to_be_bytes());
        rest.extend(self.map_date.to_be_bytes());
        for coordinate in self.bounding_box {
            rest.extend(coordinate.to_be_bytes());
        }
        rest.extend(self.tile_pixel_size.to_be_bytes());
        rest.extend(&self.projection_name);
        rest.push(self.flags);
        rest.extend(&self.optional);
        rest.extend(&self.poi_tags);
        rest.extend(&self.way_tags);
        rest.push(self.number_of_sub_files);
        for (base, min, max, start, size) in &self.sub_files {
            rest.extend([*base, *min, *max]);
            rest.extend(start.to_be_bytes());
            rest.extend(size.to_be_bytes());
        }
        rest
    }

    fn file(&self) -> Vec<u8> {
        let rest = self.rest();
        let mut file = self.magic.clone();
        file.extend((rest.len() as i32).to_be_bytes());
        file.extend(rest);
        file.resize(self.file_size.max(0) as usize, 0);
        file
    }
}

fn fields() -> Fields {
    let mut optional = Vec::new();
    optional.extend((START_POSITION.latitude as i32).to_be_bytes());
    optional.extend((START_POSITION.longitude as i32).to_be_bytes());
    optional.push(START_ZOOM_LEVEL);
    optional.extend(text(LANGUAGES_PREFERENCE));
    optional.extend(text(COMMENT));
    optional.extend(text(CREATED_BY));
    Fields {
        magic: b"mapsforge binary OSM".to_vec(),
        file_version: FILE_VERSION,
        file_size: FILE_SIZE,
        map_date: MAP_DATE,
        bounding_box: [100000, 200000, 300000, 400000],
        tile_pixel_size: 256,
        projection_name: text(PROJECTION_NAME),
        flags: 0x7c,
        optional,
        poi_tags: vec![0, 0],
        way_tags: vec![0, 0],
        number_of_sub_files: NUMBER_OF_SUBFILES,
        sub_files: vec![(5, 0, 7, 200, 100), (10, 8, 11, 300, 200), (14, 12, 21, 500, 209)],
    }
}

fn boundaries() -> Vec<TileBoundary> {
    (0..=20i64)
        .map(|zoom_level| TileBoundary {
            left: zoom_level,
            top: 2 * zoom_level,
            right: zoom_level + 2,
            bottom: 2 * zoom_level + 1,
        })
        .collect()
}

fn open(fields: &Fields) -> Result<MapFileHeader, reader::MapFileException> {
    let file = fields.file();
    let mut read_buffer = ReadBuffer::new(&file);
    let mut header = MapFileHeader::new();
    header.read_header(&mut read_buffer, fields.file_size, &boundaries())?;
    Ok(header)
}

fn failure(fields: &Fields) -> (ErrorKind, i64) {
    let error = open(fields).err().unwrap();
    (error.kind, error.value)
}

#[test]
fn test_map_file_info() {
    let file = fields().file();
    let map_file = MapFile::new(&file, 0, &boundaries()).expect("Failed to open map file");

    let map_file_info = map_file.get_map_file_info().expect("Failed to get map file info");

    assert_eq!(map_file_info.bounding_box, BOUNDING_BOX);
    assert_eq!(map_file_info.file_size, FILE_SIZE);
    assert_eq!(map_file_info.file_version, FILE_VERSION);
    assert_eq!(map_file_info.map_date, MAP_DATE);
    assert_eq!(map_file_info.number_of_sub_files, NUMBER_OF_SUBFILES);
    assert_eq!(map_file_info.projection_name, PROJECTION_NAME);
    assert_eq!(map_file_info.tile_pixel_size, TILE_PIXEL_SIZE);

    assert_eq!(map_file_info.poi_tags.len(), 0);
    assert_eq!(map_file_info.way_tags.len(), 0);

    assert!(!map_file_info.debug_file);
    assert_eq!(map_file_info.start_position, Some(START_POSITION));
    assert_eq!(map_file_info.start_zoom_level, Some(START_ZOOM_LEVEL));
    assert_eq!(map_file_info.languages_preference, Some(LANGUAGES_PREFERENCE.to_string()));
    assert_eq!(map_file_info.comment, Some(COMMENT.to_string()));
    assert_eq!(map_file_info.created_by, Some(CREATED_BY.to_string()));

    assert_eq!(map_file.start_position(), START_POSITION);
    assert_eq!(map_file.start_zoom_level(), START_ZOOM_LEVEL);
    assert_eq!(map_file.get_map_languages(), Some(vec!["en".to_string()]));
}

#[test]
fn languages_are_split_at_commas() {
    let mut with = fields();
    with.flags = 0x10;
    with.optional = text("en,de,,fr,");
    with.file_size = 300;
    with.sub_files = vec![(5, 0, 7, 200, 100)];
    with.number_of_sub_files = 1;
    let file = with.file();
    let map_file = MapFile::new(&file, 0, &boundaries()).unwrap();
    let languages: Vec<String> =
        ["en", "de", "", "fr", ""].iter().map(|piece| piece.to_string()).collect();
    assert_eq!(map_file.get_map_languages(), Some(languages));
    assert_eq!(map_file.start_zoom_level(), 12);
    assert_eq!(map_file.start_position(), LatLong::new(200000, 300000));
    with.optional = text("");
    let file = with.file();
    let map_file = MapFile::new(&file, 0, &boundaries()).unwrap();
    assert_eq!(map_file.get_map_languages(), Some(vec![String::new()]));
}

#[test]
fn sub_files_are_derived_from_their_boundary_tiles() {
    let header = open(&fields()).unwrap();
    let sub_file = header.get_sub_file_parameter(9).unwrap();
    assert_eq!(
        *sub_file,
        SubFileParameter {
            base_zoom_level: 10,
            blocks_height: 0,
            blocks_width: 0,
            boundary_tile_bottom: 0,
            boundary_tile_left: 0,
            boundary_tile_right: 0,
            boundary_tile_top: 0,
            index_end_address: 0,
            index_start_address: 0,
            number_of_blocks: 0,
            start_address: 300,
            sub_file_size: 200,
            zoom_level_max: 0,
            zoom_level_min: 0,
        }
    );
    assert_eq!((sub_file.zoom_level_min, sub_file.zoom_level_max), (8, 11));
    assert_eq!((sub_file.boundary_tile_left, sub_file.boundary_tile_right), (10, 12));
    assert_eq!((sub_file.boundary_tile_top, sub_file.boundary_tile_bottom), (20, 21));
    assert_eq!((sub_file.blocks_width, sub_file.blocks_height), (3, 2));
    assert_eq!(sub_file.number_of_blocks, 6);
    assert_eq!(sub_file.index_start_address, 300);
    assert_eq!(sub_file.index_end_address, 330);
    assert_eq!(sub_file.hash_code(), sub_file.clone().hash_code());
}

#[test]
fn the_index_of_a_debug_file_follows_a_marker() {
    let mut debug = fields();
    debug.flags |= 0x80;
    let header = open(&debug).unwrap();
    assert!(header.get_map_file_info().unwrap().debug_file);
    let sub_file = header.get_sub_file_parameter(0).unwrap();
    assert_eq!(sub_file.start_address, 200);
    assert_eq!(sub_file.index_start_address, 216);
    assert_eq!(sub_file.index_end_address, 216 + 6 * 5);
}

#[test]
fn every_zoom_level_has_its_sub_file() {
    let header = open(&fields()).unwrap();
    for zoom_level in 0..=21usize {
        let sub_file = header.get_sub_file_parameter(zoom_level).unwrap();
        let base_zoom_level = match zoom_level {
            0..=7 => 5,
            8..=11 => 10,
            _ => 14,
        };
        assert_eq!(sub_file.base_zoom_level, base_zoom_level);
        assert!(sub_file.zoom_level_min as usize <= zoom_level);
        assert!(zoom_level <= sub_file.zoom_level_max as usize);
    }
    assert!(header.get_sub_file_parameter(22).is_none());
    assert_eq!(header.get_query_zoom_level(22), 21);
    assert_eq!(header.get_query_zoom_level(255), 21);
    assert_eq!(header.get_query_zoom_level(0), 0);
    let info = header.get_map_file_info().unwrap();
    assert_eq!((info.zoom_level_min, info.zoom_level_max), (0, 21));
}

#[test]
fn a_zoom_level_that_no_sub_file_serves_gets_the_last_sub_file() {
    let mut gap = fields();
    // the first declared sub-file that serves a level wins
    gap.sub_files = vec![(5, 3, 7, 200, 100), (14, 12, 21, 500, 209), (10, 6, 12, 300, 200)];
    let header = open(&gap).unwrap();
    let base =
        |zoom_level: usize| header.get_sub_file_parameter(zoom_level).unwrap().base_zoom_level;
    assert_eq!(base(0), 10);
    assert_eq!(base(2), 10);
    assert_eq!(base(3), 5);
    assert_eq!(base(6), 5);
    assert_eq!(base(7), 5);
    assert_eq!(base(8), 10);
    assert_eq!(base(12), 14);
    assert_eq!(base(21), 14);
    assert_eq!(header.get_query_zoom_level(1), 3);
}

#[test]
fn a_header_needs_its_magic_bytes() {
    let mut wrong = fields();
    wrong.magic = b"mapsforge binary OSN".to_vec();
    assert_eq!(failure(&wrong), (ErrorKind::InvalidMagic, 0));
    let short = fields().file();
    let mut read_buffer = ReadBuffer::new(&short[..23]);
    let error = MapFileHeader::new().read_header(&mut read_buffer, 709, &boundaries()).unwrap_err();
    assert_eq!(error.kind, ErrorKind::IoError);
}

#[test]
fn header_fields_are_held_to_their_bounds() {
    let good = fields();
    assert!(open(&good).is_ok());

    let mut wrong = good.clone();
    wrong.file_version = 2;
    assert_eq!(failure(&wrong), (ErrorKind::UnsupportedVersion, 2));
    wrong.file_version = 6;
    assert_eq!(failure(&wrong), (ErrorKind::UnsupportedVersion, 6));
    wrong.file_version = 5;
    assert!(open(&wrong).is_ok());

    let mut wrong = good.clone();
    wrong.map_date = 1199999999999;
    assert_eq!(failure(&wrong), (ErrorKind::MalformedHeader, 1199999999999));
    wrong.map_date = 1200000000000;
    assert!(open(&wrong).is_ok());

    let mut wrong = good.clone();
    wrong.bounding_box = [300001, 200000, 300000, 400000];
    assert_eq!(failure(&wrong), (ErrorKind::MalformedHeader, 300001));
    wrong.bounding_box = [100000, 400001, 300000, 400000];
    assert_eq!(failure(&wrong), (ErrorKind::MalformedHeader, 400001));

    let mut wrong = good.clone();
    wrong.projection_name = text("Mercatos");
    assert_eq!(failure(&wrong), (ErrorKind::UnsupportedProjection, 0));

    let mut wrong = good.clone();
    wrong.optional[8] = 23;
    assert_eq!(failure(&wrong), (ErrorKind::MalformedHeader, 23));
    wrong.optional[8] = 22;
    assert!(open(&wrong).is_ok());

    let mut wrong = good.clone();
    wrong.poi_tags = vec![0xff, 0xff];
    assert_eq!(failure(&wrong), (ErrorKind::MalformedHeader, -1));

    let mut wrong = good.clone();
    wrong.number_of_sub_files = 0;
    wrong.sub_files.clear();
    assert_eq!(failure(&wrong), (ErrorKind::MalformedHeader, 0));
}

#[test]
fn the_file_size_of_the_header_is_the_size_of_the_file() {
    let good = fields();
    let file = good.file();
    let mut read_buffer = ReadBuffer::new(&file);
    let error = MapFileHeader::new().read_header(&mut read_buffer, 710, &boundaries()).unwrap_err();
    assert_eq!((error.kind, error.value), (ErrorKind::MalformedHeader, 709));
}

#[test]
fn sub_file_descriptors_are_held_to_their_bounds() {
    let with = |sub_file: (u8, u8, u8, i64, i64)| {
        let mut changed = fields();
        changed.sub_files[1] = sub_file;
        changed
    };
    assert!(open(&with((20, 22, 22, 70, 1))).is_ok());
    assert_eq!(failure(&with((21, 8, 11, 300, 200))), (ErrorKind::MalformedHeader, 21));
    assert_eq!(failure(&with((10, 23, 11, 300, 200))), (ErrorKind::MalformedHeader, 23));
    assert_eq!(failure(&with((10, 8, 23, 300, 200))), (ErrorKind::MalformedHeader, 23));
    assert_eq!(failure(&with((10, 12, 11, 300, 200))), (ErrorKind::MalformedHeader, 12));
    assert_eq!(failure(&with((10, 8, 11, 69, 200))), (ErrorKind::MalformedHeader, 69));
    assert_eq!(failure(&with((10, 8, 11, 709, 200))), (ErrorKind::MalformedHeader, 709));
    assert!(open(&with((10, 8, 11, 708, 200))).is_ok());
    assert_eq!(failure(&with((10, 8, 11, 300, 0))), (ErrorKind::MalformedHeader, 0));
    assert_eq!(failure(&with((10, 8, 11, 300, -5))), (ErrorKind::MalformedHeader, -5));
}

#[test]
fn the_rest_of_the_header_has_a_size_in_bounds() {
    let mut file = fields().file();
    file[20..24].copy_from_slice(&69i32.to_be_bytes());
    let mut read_buffer = ReadBuffer::new(&file);
    let error = MapFileHeader::new().read_header(&mut read_buffer, 709, &boundaries()).unwrap_err();
    assert_eq!((error.kind, error.value), (ErrorKind::MalformedHeader, 69));
    file[20..24].copy_from_slice(&1000001i32.to_be_bytes());
    let mut read_buffer = ReadBuffer::new(&file);
    let error = MapFileHeader::new().read_header(&mut read_buffer, 709, &boundaries()).unwrap_err();
    assert_eq!((error.kind, error.value), (ErrorKind::MalformedHeader, 1000001));
    // a header that the file ends in
    file[20..24].copy_from_slice(&686i32.to_be_bytes());
    let mut read_buffer = ReadBuffer::new(&file);
    let error = MapFileHeader::new().read_header(&mut read_buffer, 709, &boundaries()).unwrap_err();
    assert_eq!(error.kind, ErrorKind::IoError);
}

#[test]
fn a_header_that_ends_early_overruns() {
    let mut cut = fields();
    cut.sub_files.pop();
    // the header says three sub-files and holds two; the rest is padding
    let mut rest = cut.rest();
    rest.resize(rest.len() + 10, 0);
    let mut file = b"mapsforge binary OSM".to_vec();
    file.extend((rest.len() as i32).to_be_bytes());
    file.extend(rest);
    file.resize(709, 0);
    let mut read_buffer = ReadBuffer::new(&file);
    let error = MapFileHeader::new().read_header(&mut read_buffer, 709, &boundaries()).unwrap_err();
    assert_eq!(error.kind, ErrorKind::BufferOverrun);
}
