//! POI records.

use crate::decimal::{decimal, decimal_string};
use crate::errors::MapFileException;
use crate::map_data::{PoiView, PointOfInterest};
use crate::reader::{
    advanced,
    spec_read_byte,
    spec_read_signature,
    spec_read_signed_int,
    spec_read_tags,
    spec_read_utf8,
    Parsed,
    ReadBuffer,
};
use crate::ring::is_origin;
use crate::types::{tags_view, BoundingBox, LatLong, Tag, TagView};
use vstd::prelude::*;
use vstd::string::StringSliceAdditionalSpecFns;

verus! {

/// A marker that only debug files have.
pub open spec fn spec_optional_signature(present: bool, data: Seq<u8>, pos: int, prefix: Seq<u8>)
    -> Parsed<()> {
    if present {
        spec_read_signature(data, pos, prefix)
    } else {
        Ok(((), pos))
    }
}

/// A text with its length before it, if present, as the value of a tag with
/// the given key.
pub open spec fn spec_optional_tag(present: bool, key: Seq<char>, data: Seq<u8>, pos: int)
    -> Parsed<Seq<TagView>> {
    if present {
        match spec_read_utf8(data, pos) {
            Ok((text, next)) => Ok((seq![TagView { key, value: text }], next)),
            Err(e) => Err(e),
        }
    } else {
        Ok((Seq::empty(), pos))
    }
}

/// A signed variable-byte integer, if present, written in decimal as the
/// value of a tag with the key `ele`.
pub open spec fn spec_elevation_tag(present: bool, data: Seq<u8>, pos: int) -> Parsed<
    Seq<TagView>,
> {
    if present {
        match spec_read_signed_int(data, pos) {
            Ok((elevation, next)) => Ok(
                (seq![TagView { key: "ele"@, value: decimal(elevation as int) }], next),
            ),
            Err(e) => Err(e),
        }
    } else {
        Ok((Seq::empty(), pos))
    }
}

/// What decides how the POIs of a block are read and which are kept.
pub struct PoiQuery {
    pub debug_file: bool,
    pub poi_tags: Seq<TagView>,
    pub tile_latitude: i64,
    pub tile_longitude: i64,
    pub bounding_box: BoundingBox,
    pub filter_required: bool,
}

/// One POI record: in a debug file a marker that begins `***POIStart`; the
/// offsets of latitude and longitude from the tile's corner; a byte with the
/// layer in its high and the number of tags in its low four bits; the ids of
/// the tags; a byte of flags; and for the flags 0x80, 0x40 and 0x20 a name,
/// a house number and an elevation, each of which becomes a tag.
#[verifier::opaque]
pub open spec fn spec_poi(data: Seq<u8>, pos: int, query: PoiQuery) -> Parsed<PoiView> {
    match spec_optional_signature(query.debug_file, data, pos, "***POIStart".spec_bytes()) {
        Err(e) => Err(e),
        Ok((_, pos0)) => match spec_read_signed_int(data, pos0) {
            Err(e) => Err(e),
            Ok((latitude, pos1)) => match spec_read_signed_int(data, pos1) {
                Err(e) => Err(e),
                Ok((longitude, pos2)) => match spec_read_byte(data, pos2) {
                    Err(e) => Err(e),
                    Ok((special, pos3)) => match spec_read_tags(
                        data,
                        pos3,
                        query.poi_tags,
                        (special & 0x0f) as nat,
                    ) {
                        Err(e) => Err(e),
                        Ok((tags, pos4)) => match spec_read_byte(data, pos4) {
                            Err(e) => Err(e),
                            Ok((features, pos5)) => match spec_optional_tag(
                                features & 0x80 != 0,
                                "name"@,
                                data,
                                pos5,
                            ) {
                                Err(e) => Err(e),
                                Ok((name, pos6)) => match spec_optional_tag(
                                    features & 0x40 != 0,
                                    "addr:housenumber"@,
                                    data,
                                    pos6,
                                ) {
                                    Err(e) => Err(e),
                                    Ok((house_number, pos7)) => match spec_elevation_tag(
                                        features & 0x20 != 0,
                                        data,
                                        pos7,
                                    ) {
                                        Err(e) => Err(e),
                                        Ok((elevation, pos8)) => Ok(
                                            (
                                                PoiView {
                                                    layer: ((special & 0xf0) >> 4) as int,
                                                    tags: tags + name + house_number + elevation,
                                                    position: LatLong {
                                                        latitude: (query.tile_latitude
                                                            + latitude) as i64,
                                                        longitude: (query.tile_longitude
                                                            + longitude) as i64,
                                                    },
                                                },
                                                pos8,
                                            ),
                                        ),
                                    },
                                },
                            },
                        },
                    },
                },
            },
        },
    }
}

/// Whether a POI is kept: every one where no filter is required, and
/// otherwise those in the bounding box of the query.
pub open spec fn poi_kept(poi: PoiView, query: PoiQuery) -> bool {
    !query.filter_required || query.bounding_box.spec_contains(
        poi.position.latitude as int,
        poi.position.longitude as int,
    )
}

/// `count` POI records from `pos`, of which those that are kept are
/// returned in their order.
pub open spec fn spec_pois(data: Seq<u8>, pos: int, count: nat, query: PoiQuery) -> Parsed<
    Seq<PoiView>,
>
    decreases count,
{
    if count == 0 {
        Ok((Seq::empty(), pos))
    } else {
        match spec_poi(data, pos, query) {
            Err(e) => Err(e),
            Ok((poi, next)) => match spec_pois(data, next, (count - 1) as nat, query) {
                Err(e) => Err(e),
                Ok((rest, end)) => Ok(
                    (
                        if poi_kept(poi, query) {
                            seq![poi] + rest
                        } else {
                            rest
                        },
                        end,
                    ),
                ),
            },
        }
    }
}

/// The outcome of reading more POIs after `done` have been kept.
pub open spec fn prepend_pois(done: Seq<PoiView>, rest: Parsed<Seq<PoiView>>) -> Parsed<
    Seq<PoiView>,
> {
    match rest {
        Ok((pois, end)) => Ok((done + pois, end)),
        Err(e) => Err(e),
    }
}

/// Reads a text, if present, into a tag with the given key and appends it.
pub(crate) fn read_optional_tag(
    present: bool,
    key: &str,
    tags: &mut Vec<Tag>,
    read_buffer: &mut ReadBuffer,
) -> (r: Result<(), MapFileException>)
    ensures
        advanced(
            old(read_buffer)@,
            final(read_buffer)@,
            spec_optional_tag(present, key@, old(read_buffer)@.data, old(read_buffer)@.position),
        ),
        match spec_optional_tag(
            present,
            key@,
            old(read_buffer)@.data,
            old(read_buffer)@.position,
        ) {
            Ok((tag, _)) => r is Ok && tags_view(final(tags)@) == tags_view(old(tags)@) + tag,
            Err(e) => r == Err::<(), MapFileException>(e) && tags_view(final(tags)@) == tags_view(
                old(tags)@,
            ),
        },
{
    if present {
        let text: String = read_buffer.read_utf8_encoded_string()?;
        let ghost entry = TagView { key: key@, value: text@ };
        tags.push(Tag::new(key.to_string(), text));
        assert(tags_view(tags@) =~= tags_view(old(tags)@) + seq![entry]);
    } else {
        assert(tags_view(tags@) + Seq::<TagView>::empty() =~= tags_view(tags@));
    }
    Ok(())
}

/// Reads one POI record.
pub(crate) fn read_poi(
    debug_file: bool,
    poi_tags: &[Tag],
    tile_latitude: i64,
    tile_longitude: i64,
    read_buffer: &mut ReadBuffer,
    Ghost(query): Ghost<PoiQuery>,
) -> (r: Result<PointOfInterest, MapFileException>)
    requires
        is_origin(tile_latitude as int, tile_longitude as int),
        query.debug_file == debug_file,
        query.poi_tags == tags_view(poi_tags@),
        query.tile_latitude == tile_latitude,
        query.tile_longitude == tile_longitude,
    ensures
        advanced(
            old(read_buffer)@,
            final(read_buffer)@,
            spec_poi(old(read_buffer)@.data, old(read_buffer)@.position, query),
        ),
        match spec_poi(old(read_buffer)@.data, old(read_buffer)@.position, query) {
            Ok((poi, _)) => r matches Ok(found) && found@ == poi,
            Err(e) => r == Err::<PointOfInterest, MapFileException>(e),
        },
{
    reveal(spec_poi);
    if debug_file {
        // a debug file marks the start of each POI
        read_buffer.read_signature("***POIStart".as_bytes())?;
    }
    // the position
    let latitude: i64 = tile_latitude + read_buffer.read_signed_int()? as i64;
    let longitude: i64 = tile_longitude + read_buffer.read_signed_int()? as i64;

    // the layer and the number of tags
    let special_byte: u8 = read_buffer.read_byte()?;
    assert((special_byte & 0xf0) >> 4 <= 15) by (bit_vector);
    let layer: i8 = ((special_byte & 0xf0) >> 4) as i8;
    let number_of_tags: u8 = special_byte & 0x0f;

    let mut tags: Vec<Tag> = read_buffer.read_tags(poi_tags, number_of_tags)?;

    // the optional features
    let feature_byte: u8 = read_buffer.read_byte()?;
    let feature_name: bool = (feature_byte & 0x80) != 0;
    let feature_house_number: bool = (feature_byte & 0x40) != 0;
    let feature_elevation: bool = (feature_byte & 0x20) != 0;

    read_optional_tag(feature_name, "name", &mut tags, read_buffer)?;
    read_optional_tag(feature_house_number, "addr:housenumber", &mut tags, read_buffer)?;
    if feature_elevation {
        let elevation: i32 = read_buffer.read_signed_int()?;
        let ghost before = tags_view(tags@);
        let text: String = decimal_string(elevation);
        let ghost entry = TagView { key: "ele"@, value: text@ };
        tags.push(Tag::new("ele".to_string(), text));
        assert(tags_view(tags@) =~= before + seq![entry]);
    } else {
        assert(tags_view(tags@) + Seq::<TagView>::empty() =~= tags_view(tags@));
    }
    Ok(PointOfInterest::new(layer, tags, LatLong::new(latitude, longitude)))
}

} // verus!
