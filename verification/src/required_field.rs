//! The fields that every header holds.

use crate::errors::{ErrorKind, MapFileException};
use crate::header::{MapFileInfoBuilder, MapFileInfoBuilderView};
use crate::reader::{
    failure,
    has_prefix,
    spec_read_exact,
    spec_read_int,
    spec_read_long,
    spec_read_short,
    spec_read_utf8,
    Parsed,
    ReadBuffer,
};
use crate::types::{tags_view, BoundingBox, Tag, TagView};
use vstd::prelude::*;
use vstd::string::StringSliceAdditionalSpecFns;

verus! {

/// The least number of bytes that a header holds after its first 24.
pub const HEADER_SIZE_MIN: i32 = 70;

/// The largest number of bytes that a header holds after its first 24.
pub const HEADER_SIZE_MAX: i32 = 1000000;

/// The least file version that is read.
pub const SUPPORTED_FILE_VERSION_MIN: i32 = 3;

/// The largest file version that is read.
pub const SUPPORTED_FILE_VERSION_MAX: i32 = 5;

/// The earliest date, in milliseconds since 1970, that a map may bear.
pub const MAP_DATE_MIN: i64 = 1200000000000;

/// The number of bytes that are loaded first: the magic bytes and the size
/// of the rest of the header.
pub const MAGIC_REGION_LENGTH: usize = 24;

/// The bytes with which every map file starts.
pub open spec fn binary_osm_magic() -> Seq<u8> {
    "mapsforge binary OSM".spec_bytes()
}

/// The 24 bytes of the source from `start`, if they begin with the magic
/// bytes. Fewer bytes fail with `IoError`, others with `InvalidMagic`.
pub open spec fn spec_magic(channel: Seq<u8>, start: int) -> Result<Seq<u8>, MapFileException> {
    match spec_read_exact(channel, start, 24) {
        Some(region) => if has_prefix(region, 0, binary_osm_magic()) {
            Ok(region)
        } else {
            Err(MapFileException::of(ErrorKind::InvalidMagic))
        },
        None => Err(MapFileException::of(ErrorKind::IoError)),
    }
}

/// The size of the rest of the header: four bytes, from 70 to 1 000 000;
/// another number fails with `MalformedHeader`, which carries it.
pub open spec fn spec_remaining_header_size(data: Seq<u8>, pos: int) -> Parsed<i32> {
    match spec_read_int(data, pos) {
        Ok((size, next)) => if size < HEADER_SIZE_MIN || size > HEADER_SIZE_MAX {
            Err(MapFileException { kind: ErrorKind::MalformedHeader, value: size as i64 })
        } else {
            Ok((size, next))
        },
        Err(e) => Err(e),
    }
}

/// The file version: four bytes, from 3 to 5; another number fails with
/// `UnsupportedVersion`, which carries it.
pub open spec fn spec_file_version(data: Seq<u8>, pos: int) -> Parsed<i32> {
    match spec_read_int(data, pos) {
        Ok((version, next)) => if version < SUPPORTED_FILE_VERSION_MIN || version
            > SUPPORTED_FILE_VERSION_MAX {
            Err(MapFileException { kind: ErrorKind::UnsupportedVersion, value: version as i64 })
        } else {
            Ok((version, next))
        },
        Err(e) => Err(e),
    }
}

/// The file size: eight bytes, equal to the real size of the file; another
/// number fails with `MalformedHeader`, which carries it.
pub open spec fn spec_file_size(data: Seq<u8>, pos: int, file_size: i64) -> Parsed<i64> {
    match spec_read_long(data, pos) {
        Ok((size, next)) => if size != file_size {
            Err(MapFileException { kind: ErrorKind::MalformedHeader, value: size })
        } else {
            Ok((size, next))
        },
        Err(e) => Err(e),
    }
}

/// The date of the map: eight bytes, at least 1 200 000 000 000; an earlier
/// one fails with `MalformedHeader`, which carries it.
pub open spec fn spec_map_date(data: Seq<u8>, pos: int) -> Parsed<i64> {
    match spec_read_long(data, pos) {
        Ok((date, next)) => if date < MAP_DATE_MIN {
            Err(MapFileException { kind: ErrorKind::MalformedHeader, value: date })
        } else {
            Ok((date, next))
        },
        Err(e) => Err(e),
    }
}

/// The bounding box: minimum latitude, minimum longitude, maximum latitude,
/// maximum longitude, each four bytes of micro-degrees. A minimum above its
/// maximum fails with `MalformedHeader`, which carries the minimum.
pub open spec fn spec_bounding_box(data: Seq<u8>, pos: int) -> Parsed<BoundingBox> {
    match spec_read_int(data, pos) {
        Err(e) => Err(e),
        Ok((min_latitude, pos1)) => match spec_read_int(data, pos1) {
            Err(e) => Err(e),
            Ok((min_longitude, pos2)) => match spec_read_int(data, pos2) {
                Err(e) => Err(e),
                Ok((max_latitude, pos3)) => match spec_read_int(data, pos3) {
                    Err(e) => Err(e),
                    Ok((max_longitude, pos4)) => if min_latitude > max_latitude {
                        Err(
                            MapFileException {
                                kind: ErrorKind::MalformedHeader,
                                value: min_latitude as i64,
                            },
                        )
                    } else if min_longitude > max_longitude {
                        Err(
                            MapFileException {
                                kind: ErrorKind::MalformedHeader,
                                value: min_longitude as i64,
                            },
                        )
                    } else {
                        Ok(
                            (
                                BoundingBox {
                                    min_latitude: min_latitude as i64,
                                    min_longitude: min_longitude as i64,
                                    max_latitude: max_latitude as i64,
                                    max_longitude: max_longitude as i64,
                                },
                                pos4,
                            ),
                        )
                    },
                },
            },
        },
    }
}

/// The side of a tile in pixels: two bytes.
pub open spec fn spec_tile_pixel_size(data: Seq<u8>, pos: int) -> Parsed<i32> {
    match spec_read_short(data, pos) {
        Ok((size, next)) => Ok((size as i32, next)),
        Err(e) => Err(e),
    }
}

/// The name of the projection: a text with its length before it, which must
/// be `Mercator`; another fails with `UnsupportedProjection`.
pub open spec fn spec_projection_name(data: Seq<u8>, pos: int) -> Parsed<Seq<char>> {
    match spec_read_utf8(data, pos) {
        Ok((name, next)) => if name == "Mercator"@ {
            Ok((name, next))
        } else {
            failure(ErrorKind::UnsupportedProjection)
        },
        Err(e) => Err(e),
    }
}

/// `count` texts, each with its length before it, each stored as the key
/// and the value of a tag.
pub open spec fn spec_tag_entries(data: Seq<u8>, pos: int, count: nat) -> Parsed<Seq<TagView>>
    decreases count,
{
    if count == 0 {
        Ok((Seq::empty(), pos))
    } else {
        match spec_read_utf8(data, pos) {
            Ok((text, next)) => match spec_tag_entries(data, next, (count - 1) as nat) {
                Ok((rest, end)) => Ok((seq![TagView { key: text, value: text }] + rest, end)),
                Err(e) => Err(e),
            },
            Err(e) => Err(e),
        }
    }
}

/// A tag dictionary: the number of its entries in two bytes, then the
/// entries. A negative number fails with `MalformedHeader`, which carries
/// it.
pub open spec fn spec_tag_dictionary(data: Seq<u8>, pos: int) -> Parsed<Seq<TagView>> {
    match spec_read_short(data, pos) {
        Ok((count, next)) => if count < 0 {
            Err(MapFileException { kind: ErrorKind::MalformedHeader, value: count as i64 })
        } else {
            spec_tag_entries(data, next, count as nat)
        },
        Err(e) => Err(e),
    }
}

/// The outcome of reading more entries after `done` have been read.
pub open spec fn prepend_entries(done: Seq<TagView>, rest: Parsed<Seq<TagView>>) -> Parsed<
    Seq<TagView>,
> {
    match rest {
        Ok((tags, end)) => Ok((done + tags, end)),
        Err(e) => Err(e),
    }
}

fn read_tag_dictionary(read_buffer: &mut ReadBuffer) -> (r: Result<Vec<Tag>, MapFileException>)
    ensures
        match spec_tag_dictionary(old(read_buffer)@.data, old(read_buffer)@.position) {
            Ok((tags, next)) => r matches Ok(found) && tags_view(found@) == tags && final(
                read_buffer
            )@ == old(read_buffer)@.at(next),
            Err(e) => r == Err::<Vec<Tag>, MapFileException>(e) && old(read_buffer)@.same_region(
                final(read_buffer)@,
            ),
        },
{
    let number_of_tags: i16 = read_buffer.read_short()?;
    if number_of_tags < 0 {
        return Err(MapFileException::new(ErrorKind::MalformedHeader, number_of_tags as i64));
    }
    let ghost start = read_buffer@.position;
    let mut tags: Vec<Tag> = Vec::new();
    let mut current_tag_id: i16 = 0;
    while current_tag_id < number_of_tags
        invariant
            0 <= current_tag_id <= number_of_tags,
            old(read_buffer)@.same_region(read_buffer@),
            spec_tag_dictionary(old(read_buffer)@.data, old(read_buffer)@.position)
                == spec_tag_entries(old(read_buffer)@.data, start, number_of_tags as nat),
            spec_tag_entries(old(read_buffer)@.data, start, number_of_tags as nat)
                == prepend_entries(
                tags_view(tags@),
                spec_tag_entries(
                    read_buffer@.data,
                    read_buffer@.position,
                    (number_of_tags - current_tag_id) as nat,
                ),
            ),
        decreases number_of_tags - current_tag_id,
    {
        let ghost before = tags_view(tags@);
        let tag: String = match read_buffer.read_utf8_encoded_string() {
            Ok(tag) => tag,
            Err(e) => {
                return Err(e);
            },
        };
        proof {
            let rest = spec_tag_entries(
                read_buffer@.data,
                read_buffer@.position,
                (number_of_tags - current_tag_id - 1) as nat,
            );
            let entry = TagView { key: tag@, value: tag@ };
            if let Ok((tail, end)) = rest {
                assert(before + (seq![entry] + tail) =~= (before + seq![entry]) + tail);
            }
        }
        tags.push(Tag::from_string(tag));
        proof {
            assert(tags_view(tags@) =~= before + seq![TagView { key: tag@, value: tag@ }]);
        }
        current_tag_id = current_tag_id + 1;
    }
    proof {
        assert(tags_view(tags@) + Seq::<TagView>::empty() =~= tags_view(tags@));
    }
    Ok(tags)
}

/// The readers of the fields that every header holds.
pub struct RequiredFields;

impl RequiredFields {
    /// Loads the first 24 bytes and reads the magic bytes. On success the
    /// cursor stands after them. Where the source is too short nothing
    /// changes; where the bytes are others they stay loaded.
    pub fn read_magic_byte(read_buffer: &mut ReadBuffer) -> (r: Result<(), MapFileException>)
        ensures
            match spec_magic(old(read_buffer)@.channel, old(read_buffer)@.channel_position) {
                Ok(_) => r is Ok && final(read_buffer)@ == old(read_buffer)@.loaded(
                    old(read_buffer)@.channel_position,
                    24,
                ).at(20),
                Err(e) => r == Err::<(), MapFileException>(e) && if e.kind
                    == ErrorKind::IoError {
                    final(read_buffer)@ == old(read_buffer)@
                } else {
                    final(read_buffer)@ == old(read_buffer)@.loaded(
                        old(read_buffer)@.channel_position,
                        24,
                    )
                },
            },
    {
        if !read_buffer.read_from_file(MAGIC_REGION_LENGTH)? {
            return Err(MapFileException::new(ErrorKind::IoError, 0));
        }
        let magic: &[u8] = "mapsforge binary OSM".as_bytes();
        if !read_buffer.starts_with(magic) {
            return Err(MapFileException::new(ErrorKind::InvalidMagic, 0));
        }
        proof {
            reveal_strlit("mapsforge binary OSM");
            vstd::string::is_ascii_spec_bytes("mapsforge binary OSM");
            assert(magic@.len() == 20);
        }
        match read_buffer.skip_bytes(magic.len()) {
            Ok(()) => Ok(()),
            Err(e) => Err(e),
        }
    }

    /// Reads the size of the rest of the header and loads that many bytes.
    /// Where the source is too short it fails with `IoError`, the cursor
    /// after the size.
    pub fn read_remaining_header(read_buffer: &mut ReadBuffer) -> (r: Result<
        (),
        MapFileException,
    >)
        ensures
            match spec_remaining_header_size(
                old(read_buffer)@.data,
                old(read_buffer)@.position,
            ) {
                Ok((size, next)) => match spec_read_exact(
                    old(read_buffer)@.channel,
                    old(read_buffer)@.channel_position,
                    size as int,
                ) {
                    Some(_) => r is Ok && final(read_buffer)@ == old(read_buffer)@.loaded(
                        old(read_buffer)@.channel_position,
                        size as int,
                    ),
                    None => r == Err::<(), MapFileException>(
                        MapFileException::of(ErrorKind::IoError),
                    ) && final(read_buffer)@ == old(read_buffer)@.at(next),
                },
                Err(e) => r == Err::<(), MapFileException>(e) && final(read_buffer)@ == old(
                    read_buffer
                )@,
            },
    {
        let start: usize = read_buffer.get_buffer_position();
        let remaining_header_size: i32 = read_buffer.read_int()?;
        if remaining_header_size < HEADER_SIZE_MIN || remaining_header_size > HEADER_SIZE_MAX {
            let _ = read_buffer.set_buffer_position(start);
            return Err(
                MapFileException::new(ErrorKind::MalformedHeader, remaining_header_size as i64),
            );
        }
        if !read_buffer.read_from_file(remaining_header_size as usize)? {
            return Err(MapFileException::new(ErrorKind::IoError, 0));
        }
        Ok(())
    }

    /// Reads the file version.
    pub fn read_file_version(
        read_buffer: &mut ReadBuffer,
        map_file_info_builder: &mut MapFileInfoBuilder,
    ) -> (r: Result<(), MapFileException>)
        ensures
            match spec_file_version(old(read_buffer)@.data, old(read_buffer)@.position) {
                Ok((version, next)) => r is Ok && final(read_buffer)@ == old(read_buffer)@.at(
                    next,
                ) && final(map_file_info_builder)@ == (MapFileInfoBuilderView {
                    file_version: version,
                    ..old(map_file_info_builder)@
                }),
                Err(e) => r == Err::<(), MapFileException>(e) && final(read_buffer)@ == old(
                    read_buffer
                )@ && final(map_file_info_builder)@ == old(map_file_info_builder)@,
            },
    {
        let start: usize = read_buffer.get_buffer_position();
        let file_version: i32 = read_buffer.read_int()?;
        if file_version < SUPPORTED_FILE_VERSION_MIN || file_version > SUPPORTED_FILE_VERSION_MAX {
            let _ = read_buffer.set_buffer_position(start);
            return Err(MapFileException::new(ErrorKind::UnsupportedVersion, file_version as i64));
        }
        map_file_info_builder.file_version = file_version;
        Ok(())
    }

    /// Reads the file size and holds it against the real size of the file.
    pub fn read_file_size(
        read_buffer: &mut ReadBuffer,
        file_size: i64,
        map_file_info_builder: &mut MapFileInfoBuilder,
    ) -> (r: Result<(), MapFileException>)
        ensures
            match spec_file_size(old(read_buffer)@.data, old(read_buffer)@.position, file_size) {
                Ok((size, next)) => r is Ok && final(read_buffer)@ == old(read_buffer)@.at(next)
                    && final(map_file_info_builder)@ == (MapFileInfoBuilderView {
                    file_size: size,
                    ..old(map_file_info_builder)@
                }),
                Err(e) => r == Err::<(), MapFileException>(e) && final(read_buffer)@ == old(
                    read_buffer
                )@ && final(map_file_info_builder)@ == old(map_file_info_builder)@,
            },
    {
        let start: usize = read_buffer.get_buffer_position();
        let header_file_size: i64 = read_buffer.read_long()?;
        if header_file_size != file_size {
            let _ = read_buffer.set_buffer_position(start);
            return Err(MapFileException::new(ErrorKind::MalformedHeader, header_file_size));
        }
        map_file_info_builder.file_size = file_size;
        Ok(())
    }

    /// Reads the bounding box of the map.
    pub fn read_bounding_box(
        read_buffer: &mut ReadBuffer,
        map_file_info_builder: &mut MapFileInfoBuilder,
    ) -> (r: Result<(), MapFileException>)
        ensures
            match spec_bounding_box(old(read_buffer)@.data, old(read_buffer)@.position) {
                Ok((bounding_box, next)) => r is Ok && final(read_buffer)@ == old(
                    read_buffer
                )@.at(next) && final(map_file_info_builder)@ == (MapFileInfoBuilderView {
                    bounding_box: Some(bounding_box),
                    ..old(map_file_info_builder)@
                }),
                Err(e) => r == Err::<(), MapFileException>(e) && old(read_buffer)@.same_region(
                    final(read_buffer)@,
                ) && final(map_file_info_builder)@ == old(map_file_info_builder)@,
            },
    {
        let min_latitude: i32 = read_buffer.read_int()?;
        let min_longitude: i32 = read_buffer.read_int()?;
        let max_latitude: i32 = read_buffer.read_int()?;
        let max_longitude: i32 = read_buffer.read_int()?;
        if min_latitude > max_latitude {
            return Err(MapFileException::new(ErrorKind::MalformedHeader, min_latitude as i64));
        }
        if min_longitude > max_longitude {
            return Err(MapFileException::new(ErrorKind::MalformedHeader, min_longitude as i64));
        }
        map_file_info_builder.bounding_box = Some(
            BoundingBox {
                min_latitude: min_latitude as i64,
                min_longitude: min_longitude as i64,
                max_latitude: max_latitude as i64,
                max_longitude: max_longitude as i64,
            },
        );
        Ok(())
    }

    /// Reads the side of a tile in pixels.
    pub fn read_tile_pixel_size(
        read_buffer: &mut ReadBuffer,
        map_file_info_builder: &mut MapFileInfoBuilder,
    ) -> (r: Result<(), MapFileException>)
        ensures
            match spec_tile_pixel_size(old(read_buffer)@.data, old(read_buffer)@.position) {
                Ok((size, next)) => r is Ok && final(read_buffer)@ == old(read_buffer)@.at(next)
                    && final(map_file_info_builder)@ == (MapFileInfoBuilderView {
                    tile_pixel_size: size,
                    ..old(map_file_info_builder)@
                }),
                Err(e) => r == Err::<(), MapFileException>(e) && final(read_buffer)@ == old(
                    read_buffer
                )@ && final(map_file_info_builder)@ == old(map_file_info_builder)@,
            },
    {
        let tile_pixel_size: i16 = read_buffer.read_short()?;
        map_file_info_builder.tile_pixel_size = tile_pixel_size as i32;
        Ok(())
    }

    /// Reads the date of the map.
    pub fn read_map_date(
        read_buffer: &mut ReadBuffer,
        map_file_info_builder: &mut MapFileInfoBuilder,
    ) -> (r: Result<(), MapFileException>)
        ensures
            match spec_map_date(old(read_buffer)@.data, old(read_buffer)@.position) {
                Ok((date, next)) => r is Ok && final(read_buffer)@ == old(read_buffer)@.at(next)
                    && final(map_file_info_builder)@ == (MapFileInfoBuilderView {
                    map_date: date,
                    ..old(map_file_info_builder)@
                }),
                Err(e) => r == Err::<(), MapFileException>(e) && final(read_buffer)@ == old(
                    read_buffer
                )@ && final(map_file_info_builder)@ == old(map_file_info_builder)@,
            },
    {
        let start: usize = read_buffer.get_buffer_position();
        let map_date: i64 = read_buffer.read_long()?;
        if map_date < MAP_DATE_MIN {
            let _ = read_buffer.set_buffer_position(start);
            return Err(MapFileException::new(ErrorKind::MalformedHeader, map_date));
        }
        map_file_info_builder.map_date = map_date;
        Ok(())
    }

    /// Reads the dictionary of POI tags.
    pub fn read_poi_tags(
        read_buffer: &mut ReadBuffer,
        map_file_info_builder: &mut MapFileInfoBuilder,
    ) -> (r: Result<(), MapFileException>)
        ensures
            match spec_tag_dictionary(old(read_buffer)@.data, old(read_buffer)@.position) {
                Ok((tags, next)) => r is Ok && final(read_buffer)@ == old(read_buffer)@.at(next)
                    && final(map_file_info_builder)@ == (MapFileInfoBuilderView {
                    poi_tags: tags,
                    ..old(map_file_info_builder)@
                }),
                Err(e) => r == Err::<(), MapFileException>(e) && old(read_buffer)@.same_region(
                    final(read_buffer)@,
                ) && final(map_file_info_builder)@ == old(map_file_info_builder)@,
            },
    {
        let poi_tags: Vec<Tag> = read_tag_dictionary(read_buffer)?;
        map_file_info_builder.poi_tags = poi_tags;
        Ok(())
    }

    /// Reads the name of the projection.
    pub fn read_projection_name(
        read_buffer: &mut ReadBuffer,
        map_file_info_builder: &mut MapFileInfoBuilder,
    ) -> (r: Result<(), MapFileException>)
        ensures
            match spec_projection_name(old(read_buffer)@.data, old(read_buffer)@.position) {
                Ok((name, next)) => r is Ok && final(read_buffer)@ == old(read_buffer)@.at(next)
                    && final(map_file_info_builder)@ == (MapFileInfoBuilderView {
                    projection_name: name,
                    ..old(map_file_info_builder)@
                }),
                Err(e) => r == Err::<(), MapFileException>(e) && old(read_buffer)@.same_region(
                    final(read_buffer)@,
                ) && final(map_file_info_builder)@ == old(map_file_info_builder)@,
            },
    {
        let projection_name: String = read_buffer.read_utf8_encoded_string()?;
        let mercator: String = "Mercator".to_string();
        if projection_name != mercator {
            return Err(MapFileException::new(ErrorKind::UnsupportedProjection, 0));
        }
        map_file_info_builder.projection_name = projection_name;
        Ok(())
    }

    /// Reads the dictionary of way tags.
    pub fn read_way_tags(
        read_buffer: &mut ReadBuffer,
        map_file_info_builder: &mut MapFileInfoBuilder,
    ) -> (r: Result<(), MapFileException>)
        ensures
            match spec_tag_dictionary(old(read_buffer)@.data, old(read_buffer)@.position) {
                Ok((tags, next)) => r is Ok && final(read_buffer)@ == old(read_buffer)@.at(next)
                    && final(map_file_info_builder)@ == (MapFileInfoBuilderView {
                    way_tags: tags,
                    ..old(map_file_info_builder)@
                }),
                Err(e) => r == Err::<(), MapFileException>(e) && old(read_buffer)@.same_region(
                    final(read_buffer)@,
                ) && final(map_file_info_builder)@ == old(map_file_info_builder)@,
            },
    {
        let way_tags: Vec<Tag> = read_tag_dictionary(read_buffer)?;
        map_file_info_builder.way_tags = way_tags;
        Ok(())
    }
}

} // verus!
