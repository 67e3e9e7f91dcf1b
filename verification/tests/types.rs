use reader::decimal::decimal_string;
use reader::types::LatLongUtils;
use reader::{BoundingBox, ErrorKind, LatLong, MapFileException, MercatorProjection, Tag, Tile};

#[test]
fn bounding_box_needs_its_minimum_below_its_maximum() {
    let bounding_box = BoundingBox::new(100000, 200000, 300000, 400000).unwrap();
    assert_eq!(bounding_box.min_latitude, 100000);
    assert_eq!(bounding_box.max_longitude, 400000);
    assert_eq!(BoundingBox::new(1, 0, 0, 0).unwrap_err().kind, ErrorKind::InvalidRange);
    assert_eq!(BoundingBox::new(0, 1, 0, 0).unwrap_err().kind, ErrorKind::InvalidRange);
    assert!(BoundingBox::new(5, 5, 5, 5).is_ok());
}

#[test]
fn bounding_box_contains_its_edges() {
    let bounding_box = BoundingBox::new(-10, -20, 10, 20).unwrap();
    assert!(bounding_box.contains(-10, -20));
    assert!(bounding_box.contains(10, 20));
    assert!(bounding_box.contains(0, 0));
    assert!(!bounding_box.contains(11, 0));
    assert!(!bounding_box.contains(0, -21));
}

#[test]
fn bounding_boxes_intersect() {
    let bounding_box = BoundingBox::new(0, 0, 10, 10).unwrap();
    assert!(bounding_box.intersects(&BoundingBox::new(10, 10, 20, 20).unwrap()));
    assert!(bounding_box.intersects(&BoundingBox::new(-5, -5, 0, 0).unwrap()));
    assert!(bounding_box.intersects(&BoundingBox::new(2, 2, 3, 3).unwrap()));
    assert!(!bounding_box.intersects(&BoundingBox::new(11, 0, 12, 10).unwrap()));
    assert!(!bounding_box.intersects(&BoundingBox::new(0, -9, 10, -1).unwrap()));
}

#[test]
fn twenty_meters_are_180_microdegrees() {
    let bounding_box = BoundingBox::new(0, 0, 1000, 2000).unwrap();
    let extended = bounding_box.extend_meters(20);
    assert_eq!(
        extended,
        BoundingBox::new(-180, -180, 1180, 2180).unwrap()
    );
    let extended = bounding_box.extend_meters(111);
    assert_eq!(extended.min_latitude, -1000);
    assert_eq!(bounding_box.extend_meters(0), bounding_box);
    let shrunk = bounding_box.extend_meters(-20);
    assert_eq!((shrunk.min_latitude, shrunk.max_longitude), (180, 1820));
    let huge = BoundingBox::new(i64::MIN, 0, i64::MAX, 0).unwrap().extend_meters(20);
    assert_eq!((huge.min_latitude, huge.max_latitude), (i64::MIN, i64::MAX));
}

#[test]
fn center_is_rounded_toward_zero() {
    let bounding_box = BoundingBox::new(100000, 200000, 300000, 400000).unwrap();
    assert_eq!(bounding_box.get_center_point(), LatLong::new(200000, 300000));
    assert_eq!(BoundingBox::new(0, -4, 3, -1).unwrap().get_center_point(), LatLong::new(1, -2));
    assert_eq!(
        BoundingBox::new(i64::MAX - 1, i64::MIN, i64::MAX, i64::MIN + 2)
            .unwrap()
            .get_center_point(),
        LatLong::new(i64::MAX - 1, i64::MIN + 1)
    );
}

#[test]
fn longitudes_near_the_date_line_snap() {
    assert_eq!(LatLongUtils::snap_longitude(180_000_001), 180_000_000);
    assert_eq!(LatLongUtils::snap_longitude(180_000_999), 180_000_000);
    assert_eq!(LatLongUtils::snap_longitude(180_001_000), 180_001_000);
    assert_eq!(LatLongUtils::snap_longitude(-180_000_999), -180_000_000);
    assert_eq!(LatLongUtils::snap_longitude(-180_001_000), -180_001_000);
    assert_eq!(LatLongUtils::snap_longitude(179_999_999), 179_999_999);
    assert_eq!(LatLongUtils::snap_longitude(0), 0);
}

#[test]
fn tags_hold_key_and_value() {
    let tag = Tag::new("highway".to_string(), "primary".to_string());
    assert_eq!((tag.key.as_str(), tag.value.as_str()), ("highway", "primary"));
    let entry = Tag::from_string("highway=primary".to_string());
    assert_eq!(entry.key, "highway=primary");
    assert_eq!(entry.value, "highway=primary");
    let copy = entry.clone();
    assert_eq!(copy.key, entry.key);
}

#[test]
fn tiles_are_squares_of_their_zoom_level() {
    assert!(Tile::new(0, 0, 0, 256).check_valid());
    assert!(!Tile::new(1, 0, 0, 256).check_valid());
    assert!(Tile::new(255, 255, 8, 256).check_valid());
    assert!(!Tile::new(256, 0, 8, 256).check_valid());
    assert!(!Tile::new(-1, 0, 8, 256).check_valid());
    assert!(!Tile::new(0, 0, 63, 256).check_valid());
    assert!(Tile::new((1 << 62) - 1, 0, 62, 256).check_valid());
}

#[test]
fn map_size_and_tile_count_double_with_each_zoom_level() {
    assert_eq!(MercatorProjection::tile_count(0), 1);
    assert_eq!(MercatorProjection::tile_count(8), 256);
    assert_eq!(MercatorProjection::tile_count(62), 1 << 62);
    assert_eq!(MercatorProjection::get_map_size(0), 256);
    assert_eq!(MercatorProjection::get_map_size(14), 256 << 14);
    assert_eq!(MercatorProjection::get_map_size(54), 256i64 << 54);
}

#[test]
fn numbers_are_written_in_decimal() {
    for value in [0, 1, -1, 9, 10, 11, 99, 100, 1234567890, -987654321, i32::MAX, i32::MIN] {
        assert_eq!(decimal_string(value), format!("{}", value));
    }
}

#[test]
fn errors_describe_their_kind() {
    let error = MapFileException::new(ErrorKind::MalformedHeader, 69);
    assert_eq!(error.kind, ErrorKind::MalformedHeader);
    assert_eq!(error.value, 69);
    assert_eq!(error.message(), "malformed header");
    assert_eq!(MapFileException::new(ErrorKind::InvalidTagId, 3).message(), "invalid tag id");
    assert_eq!(MapFileException::new(ErrorKind::IoError, 0).message(), "the byte source failed");
}
