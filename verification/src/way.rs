//! Way records.

use crate::errors::{ErrorKind, MapFileException};
use crate::map_data::{rings_view, ways_view, Way, WayView};
use crate::map_file::Selector;
use crate::poi::{read_optional_tag, spec_optional_signature, spec_optional_tag};
use crate::reader::{
    advanced,
    spec_read_byte,
    spec_read_short,
    spec_read_signed_int,
    spec_read_tags,
    spec_read_unsigned_int,
    spec_skip_bytes,
    Parsed,
    ReadBuffer,
};
use crate::ring::{
    decode_way_nodes,
    is_origin,
    nodes_in_reach,
    spec_ring,
    Offset,
    COUNT_MAX,
};
use crate::types::{tags_view, BoundingBox, LatLong, Tag, TagView};
use vstd::prelude::*;
use vstd::string::StringSliceAdditionalSpecFns;

verus! {

/// The error of a count or a size that is not permitted: it carries the
/// number.
pub open spec fn invalid<T>(value: int) -> Parsed<T> {
    Err(MapFileException { kind: ErrorKind::InvalidEncoding, value: value as i64 })
}

/// A ring with its number of nodes before it, which is from 2 to 32767;
/// another number fails with `InvalidEncoding`.
pub open spec fn spec_counted_ring(data: Seq<u8>, pos: int, origin: LatLong, double_delta: bool)
    -> Parsed<Seq<LatLong>> {
    match spec_read_unsigned_int(data, pos) {
        Err(e) => Err(e),
        Ok((count, next)) => if count < 2 || count > COUNT_MAX {
            invalid(count as int)
        } else {
            spec_ring(data, next, count as nat, origin, double_delta)
        },
    }
}

/// `count` rings from `pos`.
pub open spec fn spec_rings(
    data: Seq<u8>,
    pos: int,
    count: nat,
    origin: LatLong,
    double_delta: bool,
) -> Parsed<Seq<Seq<LatLong>>>
    decreases count,
{
    if count == 0 {
        Ok((Seq::empty(), pos))
    } else {
        match spec_counted_ring(data, pos, origin, double_delta) {
            Err(e) => Err(e),
            Ok((ring, next)) => match spec_rings(
                data,
                next,
                (count - 1) as nat,
                origin,
                double_delta,
            ) {
                Err(e) => Err(e),
                Ok((rest, end)) => Ok((seq![ring] + rest, end)),
            },
        }
    }
}

/// The outcome of reading more rings after `done` have been read.
pub open spec fn prepend_rings(done: Seq<Seq<LatLong>>, rest: Parsed<Seq<Seq<LatLong>>>)
    -> Parsed<Seq<Seq<LatLong>>> {
    match rest {
        Ok((rings, end)) => Ok((done + rings, end)),
        Err(e) => Err(e),
    }
}

/// A way data block: the number of its rings, from 1 to 32767 (another
/// fails with `InvalidEncoding`), and the rings.
pub open spec fn spec_way_data_block(
    data: Seq<u8>,
    pos: int,
    origin: LatLong,
    double_delta: bool,
) -> Parsed<Seq<Seq<LatLong>>> {
    match spec_read_unsigned_int(data, pos) {
        Err(e) => Err(e),
        Ok((count, next)) => if count < 1 || count > COUNT_MAX {
            invalid(count as int)
        } else {
            spec_rings(data, next, count as nat, origin, double_delta)
        },
    }
}

/// Some node of some ring lies in the box.
pub open spec fn rings_touch(rings: Seq<Seq<LatLong>>, bounding_box: BoundingBox) -> bool {
    exists|i: int, j: int|
        0 <= i < rings.len() && 0 <= j < rings[i].len() && bounding_box.spec_contains(
            (#[trigger] rings[i][j]).latitude as int,
            rings[i][j].longitude as int,
        )
}

/// Some tag has the key `name` or the key `ref`.
pub open spec fn has_label(tags: Seq<TagView>) -> bool {
    exists|i: int|
        0 <= i < tags.len() && ((#[trigger] tags[i]).key == "name"@ || tags[i].key == "ref"@)
}

/// What decides how the ways of a block are read and which are kept.
pub struct WayQuery {
    pub debug_file: bool,
    pub way_tags: Seq<TagView>,
    pub tile_latitude: i64,
    pub tile_longitude: i64,
    pub use_tile_bitmask: bool,
    pub query_tile_bitmask: i32,
    /// The box that a way must touch to be kept, where ways are filtered.
    pub filter: Option<BoundingBox>,
    pub selector: Selector,
}

/// The offsets of a way's label from its first node, if present: that of
/// the longitude, then that of the latitude.
pub open spec fn spec_label_offsets(present: bool, data: Seq<u8>, pos: int) -> Parsed<
    Option<Offset>,
> {
    if present {
        match spec_read_signed_int(data, pos) {
            Err(e) => Err(e),
            Ok((longitude, pos1)) => match spec_read_signed_int(data, pos1) {
                Err(e) => Err(e),
                Ok((latitude, pos2)) => Ok((Some((latitude as int, longitude as int)), pos2)),
            },
        }
    } else {
        Ok((None, pos))
    }
}

/// The number of way data blocks: an unsigned variable-byte integer if
/// present, and otherwise one. None at all fails with `InvalidEncoding`.
pub open spec fn spec_data_block_count(present: bool, data: Seq<u8>, pos: int) -> Parsed<u32> {
    if present {
        match spec_read_unsigned_int(data, pos) {
            Err(e) => Err(e),
            Ok((count, next)) => if count < 1 {
                invalid(count as int)
            } else {
                Ok((count, next))
            },
        }
    } else {
        Ok((1u32, pos))
    }
}

/// What the way data blocks of one way record share.
pub struct WayCommon {
    pub layer: int,
    pub tags: Seq<TagView>,
    pub label_offsets: Option<Offset>,
    /// The record has a name, a house number or a reference, or a tag with
    /// the key `name` or `ref`.
    pub named: bool,
    pub double_delta: bool,
}

/// The way that a way data block with the given rings makes. Its label, if
/// it has one, lies at the given offsets from its first node.
pub open spec fn way_of(common: WayCommon, rings: Seq<Seq<LatLong>>) -> WayView {
    WayView {
        layer: common.layer,
        tags: common.tags,
        way_nodes: rings,
        label_position: match common.label_offsets {
            Some(offsets) => Some(
                LatLong {
                    latitude: (rings[0][0].latitude + offsets.0) as i64,
                    longitude: (rings[0][0].longitude + offsets.1) as i64,
                },
            ),
            None => None,
        },
    }
}

/// Whether the way of a data block is kept: where ways are filtered it must
/// touch the box, and unless all ways are asked for it must be named.
pub open spec fn way_kept(common: WayCommon, rings: Seq<Seq<LatLong>>, query: WayQuery) -> bool {
    &&& match query.filter {
        Some(bounding_box) => rings_touch(rings, bounding_box),
        None => true,
    }
    &&& (query.selector == Selector::All || common.named)
}

/// `count` way data blocks from `pos`, of which those that are kept are
/// returned as ways.
pub open spec fn spec_way_data_blocks(
    data: Seq<u8>,
    pos: int,
    count: nat,
    common: WayCommon,
    query: WayQuery,
) -> Parsed<Seq<WayView>>
    decreases count,
{
    if count == 0 {
        Ok((Seq::empty(), pos))
    } else {
        match spec_way_data_block(
            data,
            pos,
            LatLong { latitude: query.tile_latitude, longitude: query.tile_longitude },
            common.double_delta,
        ) {
            Err(e) => Err(e),
            Ok((rings, next)) => match spec_way_data_blocks(
                data,
                next,
                (count - 1) as nat,
                common,
                query,
            ) {
                Err(e) => Err(e),
                Ok((rest, end)) => Ok(
                    (
                        if way_kept(common, rings, query) {
                            seq![way_of(common, rings)] + rest
                        } else {
                            rest
                        },
                        end,
                    ),
                ),
            },
        }
    }
}

/// The outcome of reading more ways after `done` have been kept.
pub open spec fn prepend_ways(done: Seq<WayView>, rest: Parsed<Seq<WayView>>) -> Parsed<
    Seq<WayView>,
> {
    match rest {
        Ok((ways, end)) => Ok((done + ways, end)),
        Err(e) => Err(e),
    }
}

/// What follows the tile bitmask in a way record that is not skipped: a
/// byte with the layer in its high and the number of tags in its low four
/// bits; the ids of the tags; a byte of flags; for the flags 0x80, 0x40 and
/// 0x20 a name, a house number and a reference, each of which becomes a tag;
/// for 0x10 the offsets of the label; for 0x08 the number of way data
/// blocks; the way data blocks, in double-delta encoding for 0x04.
#[verifier::opaque]
pub open spec fn spec_way_body(data: Seq<u8>, pos: int, query: WayQuery) -> Parsed<Seq<WayView>> {
    match spec_read_byte(data, pos) {
        Err(e) => Err(e),
        Ok((special, pos1)) => match spec_read_tags(
            data,
            pos1,
            query.way_tags,
            (special & 0x0f) as nat,
        ) {
            Err(e) => Err(e),
            Ok((tags, pos2)) => match spec_read_byte(data, pos2) {
                Err(e) => Err(e),
                Ok((features, pos3)) => match spec_optional_tag(
                    features & 0x80 != 0,
                    "name"@,
                    data,
                    pos3,
                ) {
                    Err(e) => Err(e),
                    Ok((name, pos4)) => match spec_optional_tag(
                        features & 0x40 != 0,
                        "addr:housenumber"@,
                        data,
                        pos4,
                    ) {
                        Err(e) => Err(e),
                        Ok((house_number, pos5)) => match spec_optional_tag(
                            features & 0x20 != 0,
                            "ref"@,
                            data,
                            pos5,
                        ) {
                            Err(e) => Err(e),
                            Ok((reference, pos6)) => match spec_label_offsets(
                                features & 0x10 != 0,
                                data,
                                pos6,
                            ) {
                                Err(e) => Err(e),
                                Ok((label_offsets, pos7)) => match spec_data_block_count(
                                    features & 0x08 != 0,
                                    data,
                                    pos7,
                                ) {
                                    Err(e) => Err(e),
                                    Ok((count, pos8)) => spec_way_data_blocks(
                                        data,
                                        pos8,
                                        count as nat,
                                        WayCommon {
                                            layer: ((special & 0xf0) >> 4) as int,
                                            tags: tags + name + house_number + reference,
                                            label_offsets,
                                            named: features & 0x80 != 0 || features & 0x40 != 0
                                                || features & 0x20 != 0 || has_label(
                                                tags + name + house_number + reference,
                                            ),
                                            double_delta: features & 0x04 != 0,
                                        },
                                        query,
                                    ),
                                },
                            },
                        },
                    },
                },
            },
        },
    }
}

/// One way record: in a debug file a marker that begins `---WayStart`; the
/// size of what follows; a tile bitmask of two bytes; and the rest. Where
/// the query uses a bitmask that shares no bit with that of the way, the
/// rest is skipped and gives no way; a size below that of the bitmask then
/// fails with `InvalidEncoding`.
#[verifier::opaque]
pub open spec fn spec_way(data: Seq<u8>, pos: int, query: WayQuery) -> Parsed<Seq<WayView>> {
    match spec_optional_signature(query.debug_file, data, pos, "---WayStart".spec_bytes()) {
        Err(e) => Err(e),
        Ok((_, pos0)) => match spec_read_unsigned_int(data, pos0) {
            Err(e) => Err(e),
            Ok((way_data_size, pos1)) => match spec_read_short(data, pos1) {
                Err(e) => Err(e),
                Ok((tile_bitmask, pos2)) => if query.use_tile_bitmask && (query.query_tile_bitmask
                    & (tile_bitmask as i32)) == 0 {
                    if way_data_size < 2 {
                        invalid(way_data_size as int)
                    } else {
                        match spec_skip_bytes(data, pos2, way_data_size - 2) {
                            Err(e) => Err(e),
                            Ok((_, pos3)) => Ok((Seq::empty(), pos3)),
                        }
                    }
                } else {
                    spec_way_body(data, pos2, query)
                },
            },
        },
    }
}

/// `count` way records from `pos`: the ways that are kept, in their order.
pub open spec fn spec_ways(data: Seq<u8>, pos: int, count: nat, query: WayQuery) -> Parsed<
    Seq<WayView>,
>
    decreases count,
{
    if count == 0 {
        Ok((Seq::empty(), pos))
    } else {
        match spec_way(data, pos, query) {
            Err(e) => Err(e),
            Ok((ways, next)) => match spec_ways(data, next, (count - 1) as nat, query) {
                Err(e) => Err(e),
                Ok((rest, end)) => Ok((ways + rest, end)),
            },
        }
    }
}

/// A copy of a list of tags.
fn clone_tags(tags: &Vec<Tag>) -> (copy: Vec<Tag>)
    ensures
        tags_view(copy@) == tags_view(tags@),
{
    let mut copy: Vec<Tag> = Vec::new();
    let mut i: usize = 0;
    while i < tags.len()
        invariant
            i <= tags@.len(),
            copy@.len() == i,
            forall|k: int| 0 <= k < i ==> copy@[k]@ == tags@[k]@,
        decreases tags@.len() - i,
    {
        copy.push(tags[i].clone());
        i += 1;
    }
    assert(tags_view(copy@) =~= tags_view(tags@));
    copy
}

/// Whether some tag has the key `name` or the key `ref`.
pub fn has_label_tag(tags: &[Tag]) -> (found: bool)
    ensures
        found == has_label(tags_view(tags@)),
{
    let name: String = "name".to_string();
    let reference: String = "ref".to_string();
    let mut i: usize = 0;
    while i < tags.len()
        invariant
            i <= tags@.len(),
            name@ == "name"@,
            reference@ == "ref"@,
            forall|k: int|
                0 <= k < i ==> !((#[trigger] tags_view(tags@)[k]).key == "name"@ || tags_view(
                    tags@,
                )[k].key == "ref"@),
        decreases tags@.len() - i,
    {
        if tags[i].key == name || tags[i].key == reference {
            assert(tags_view(tags@)[i as int].key == tags@[i as int].key@);
            return true;
        }
        i += 1;
    }
    false
}

/// Whether some node of the ring lies in the box.
fn ring_touches(ring: &Vec<LatLong>, bbox: &BoundingBox) -> (found: bool)
    ensures
        found == (exists|j: int|
            0 <= j < ring@.len() && bbox.spec_contains(
                (#[trigger] ring@[j]).latitude as int,
                ring@[j].longitude as int,
            )),
{
    let mut j: usize = 0;
    while j < ring.len()
        invariant
            j <= ring@.len(),
            forall|k: int|
                0 <= k < j ==> !bbox.spec_contains(
                    (#[trigger] ring@[k]).latitude as int,
                    ring@[k].longitude as int,
                ),
        decreases ring@.len() - j,
    {
        if bbox.contains(ring[j].latitude, ring[j].longitude) {
            return true;
        }
        j += 1;
    }
    false
}

/// Whether some node of some ring lies in the box.
pub fn way_intersects_bbox(way_nodes: &[Vec<LatLong>], bbox: &BoundingBox) -> (found: bool)
    ensures
        found == rings_touch(rings_view(way_nodes@), *bbox),
{
    let mut i: usize = 0;
    while i < way_nodes.len()
        invariant
            i <= way_nodes@.len(),
            forall|k: int, j: int|
                0 <= k < i && 0 <= j < rings_view(way_nodes@)[k].len() ==> !bbox.spec_contains(
                    (#[trigger] rings_view(way_nodes@)[k][j]).latitude as int,
                    rings_view(way_nodes@)[k][j].longitude as int,
                ),
        decreases way_nodes@.len() - i,
    {
        if ring_touches(&way_nodes[i], bbox) {
            let ghost j = choose|j: int|
                0 <= j < way_nodes@[i as int]@.len() && bbox.spec_contains(
                    (#[trigger] way_nodes@[i as int]@[j]).latitude as int,
                    way_nodes@[i as int]@[j].longitude as int,
                );
            assert(rings_view(way_nodes@)[i as int][j] == way_nodes@[i as int]@[j]);
            return true;
        }
        assert forall|j: int|
            0 <= j < rings_view(way_nodes@)[i as int].len() implies !bbox.spec_contains(
            (#[trigger] rings_view(way_nodes@)[i as int][j]).latitude as int,
            rings_view(way_nodes@)[i as int][j].longitude as int,
        ) by {
            assert(rings_view(way_nodes@)[i as int][j] == way_nodes@[i as int]@[j]);
        }
        i += 1;
    }
    false
}

/// Reads the number of nodes of a ring and the ring.
fn read_counted_ring(
    tile_latitude: i64,
    tile_longitude: i64,
    double_delta_encoding: bool,
    read_buffer: &mut ReadBuffer,
) -> (r: Result<Vec<LatLong>, MapFileException>)
    requires
        is_origin(tile_latitude as int, tile_longitude as int),
    ensures
        advanced(
            old(read_buffer)@,
            final(read_buffer)@,
            spec_counted_ring(
                old(read_buffer)@.data,
                old(read_buffer)@.position,
                LatLong { latitude: tile_latitude, longitude: tile_longitude },
                double_delta_encoding,
            ),
        ),
        match spec_counted_ring(
            old(read_buffer)@.data,
            old(read_buffer)@.position,
            LatLong { latitude: tile_latitude, longitude: tile_longitude },
            double_delta_encoding,
        ) {
            Ok((nodes, _)) => r matches Ok(found) && found@ == nodes && found@.len() >= 2
                && nodes_in_reach(found@),
            Err(e) => r == Err::<Vec<LatLong>, MapFileException>(e),
        },
{
    let number_of_way_nodes: u32 = read_buffer.read_unsigned_int()?;
    if number_of_way_nodes < 2 || number_of_way_nodes > COUNT_MAX {
        return Err(MapFileException::new(ErrorKind::InvalidEncoding, number_of_way_nodes as i64));
    }
    decode_way_nodes(
        number_of_way_nodes as usize,
        tile_latitude,
        tile_longitude,
        double_delta_encoding,
        read_buffer,
    )
}

/// Reads one way data block.
pub(crate) fn read_way_data_block(
    tile_latitude: i64,
    tile_longitude: i64,
    double_delta_encoding: bool,
    read_buffer: &mut ReadBuffer,
) -> (r: Result<Vec<Vec<LatLong>>, MapFileException>)
    requires
        is_origin(tile_latitude as int, tile_longitude as int),
    ensures
        advanced(
            old(read_buffer)@,
            final(read_buffer)@,
            spec_way_data_block(
                old(read_buffer)@.data,
                old(read_buffer)@.position,
                LatLong { latitude: tile_latitude, longitude: tile_longitude },
                double_delta_encoding,
            ),
        ),
        match spec_way_data_block(
            old(read_buffer)@.data,
            old(read_buffer)@.position,
            LatLong { latitude: tile_latitude, longitude: tile_longitude },
            double_delta_encoding,
        ) {
            Ok((rings, _)) => r matches Ok(found) && rings_view(found@) == rings && found@.len()
                >= 1 && found@[0]@.len() >= 2 && nodes_in_reach(found@[0]@),
            Err(e) => r == Err::<Vec<Vec<LatLong>>, MapFileException>(e),
        },
{
    let ghost origin = LatLong { latitude: tile_latitude, longitude: tile_longitude };
    // the number of rings
    let number_of_way_coordinate_blocks: u32 = read_buffer.read_unsigned_int()?;
    if number_of_way_coordinate_blocks < 1 || number_of_way_coordinate_blocks > COUNT_MAX {
        return Err(
            MapFileException::new(
                ErrorKind::InvalidEncoding,
                number_of_way_coordinate_blocks as i64,
            ),
        );
    }
    let ghost start = read_buffer@.position;
    let mut way_coordinates: Vec<Vec<LatLong>> = Vec::new();
    let mut block: u32 = 0;
    while block < number_of_way_coordinate_blocks
        invariant
            block <= number_of_way_coordinate_blocks,
            way_coordinates@.len() == block,
            block >= 1 ==> way_coordinates@[0]@.len() >= 2 && nodes_in_reach(way_coordinates@[0]@),
            is_origin(tile_latitude as int, tile_longitude as int),
            origin == (LatLong { latitude: tile_latitude, longitude: tile_longitude }),
            old(read_buffer)@.same_region(read_buffer@),
            spec_way_data_block(
                old(read_buffer)@.data,
                old(read_buffer)@.position,
                origin,
                double_delta_encoding,
            ) == spec_rings(
                old(read_buffer)@.data,
                start,
                number_of_way_coordinate_blocks as nat,
                origin,
                double_delta_encoding,
            ),
            spec_rings(
                old(read_buffer)@.data,
                start,
                number_of_way_coordinate_blocks as nat,
                origin,
                double_delta_encoding,
            ) == prepend_rings(
                rings_view(way_coordinates@),
                spec_rings(
                    read_buffer@.data,
                    read_buffer@.position,
                    (number_of_way_coordinate_blocks - block) as nat,
                    origin,
                    double_delta_encoding,
                ),
            ),
        decreases number_of_way_coordinate_blocks - block,
    {
        let ghost before = rings_view(way_coordinates@);
        let way_segment: Vec<LatLong> = match read_counted_ring(
            tile_latitude,
            tile_longitude,
            double_delta_encoding,
            read_buffer,
        ) {
            Ok(nodes) => nodes,
            Err(e) => {
                return Err(e);
            },
        };
        proof {
            let rest = spec_rings(
                read_buffer@.data,
                read_buffer@.position,
                (number_of_way_coordinate_blocks - block - 1) as nat,
                origin,
                double_delta_encoding,
            );
            if let Ok((tail, end)) = rest {
                assert(before + (seq![way_segment@] + tail) =~= (before + seq![way_segment@])
                    + tail);
            }
        }
        way_coordinates.push(way_segment);
        proof {
            assert(rings_view(way_coordinates@) =~= before + seq![way_segment@]);
        }
        block = block + 1;
    }
    proof {
        assert(rings_view(way_coordinates@) + Seq::<Seq<LatLong>>::empty() =~= rings_view(
            way_coordinates@,
        ));
    }
    Ok(way_coordinates)
}

/// Reads the offsets of a way's label, if present.
fn read_optional_label_position(present: bool, read_buffer: &mut ReadBuffer) -> (r: Result<
    Option<(i32, i32)>,
    MapFileException,
>)
    ensures
        advanced(
            old(read_buffer)@,
            final(read_buffer)@,
            spec_label_offsets(present, old(read_buffer)@.data, old(read_buffer)@.position),
        ),
        match spec_label_offsets(present, old(read_buffer)@.data, old(read_buffer)@.position) {
            Ok((Some(offsets), _)) => r matches Ok(Some(found)) && found.0 == offsets.0 && found.1
                == offsets.1,
            Ok((None, _)) => r matches Ok(None),
            Err(e) => r == Err::<Option<(i32, i32)>, MapFileException>(e),
        },
{
    if present {
        let longitude: i32 = read_buffer.read_signed_int()?;
        let latitude: i32 = read_buffer.read_signed_int()?;
        Ok(Some((latitude, longitude)))
    } else {
        Ok(None)
    }
}

/// Reads the number of way data blocks, if present.
fn read_optional_way_data_blocks_byte(present: bool, read_buffer: &mut ReadBuffer) -> (r: Result<
    u32,
    MapFileException,
>)
    ensures
        advanced(
            old(read_buffer)@,
            final(read_buffer)@,
            spec_data_block_count(present, old(read_buffer)@.data, old(read_buffer)@.position),
        ),
        match spec_data_block_count(present, old(read_buffer)@.data, old(read_buffer)@.position) {
            Ok((count, _)) => r == Ok::<u32, MapFileException>(count),
            Err(e) => r == Err::<u32, MapFileException>(e),
        },
{
    if present {
        let count: u32 = read_buffer.read_unsigned_int()?;
        if count < 1 {
            return Err(MapFileException::new(ErrorKind::InvalidEncoding, count as i64));
        }
        Ok(count)
    } else {
        // a way has one data block unless it says otherwise
        Ok(1)
    }
}

/// Reads `count` way data blocks and appends the ways that are kept.
fn read_way_data_blocks(
    count: u32,
    layer: i8,
    tags: &Vec<Tag>,
    label_offsets: Option<(i32, i32)>,
    named: bool,
    double_delta_encoding: bool,
    filter: Option<BoundingBox>,
    selector: Selector,
    tile_latitude: i64,
    tile_longitude: i64,
    ways: &mut Vec<Way>,
    read_buffer: &mut ReadBuffer,
    Ghost(common): Ghost<WayCommon>,
    Ghost(query): Ghost<WayQuery>,
) -> (r: Result<(), MapFileException>)
    requires
        is_origin(tile_latitude as int, tile_longitude as int),
        common.layer == layer,
        common.tags == tags_view(tags@),
        match common.label_offsets {
            Some(offsets) => label_offsets matches Some(found) && found.0 == offsets.0 && found.1
                == offsets.1,
            None => label_offsets is None,
        },
        common.named == named,
        common.double_delta == double_delta_encoding,
        query.filter == filter,
        query.selector == selector,
        query.tile_latitude == tile_latitude,
        query.tile_longitude == tile_longitude,
    ensures
        advanced(
            old(read_buffer)@,
            final(read_buffer)@,
            spec_way_data_blocks(
                old(read_buffer)@.data,
                old(read_buffer)@.position,
                count as nat,
                common,
                query,
            ),
        ),
        match spec_way_data_blocks(
            old(read_buffer)@.data,
            old(read_buffer)@.position,
            count as nat,
            common,
            query,
        ) {
            Ok((found, _)) => r is Ok && ways_view(final(ways)@) == ways_view(old(ways)@) + found,
            Err(e) => r == Err::<(), MapFileException>(e),
        },
{
    let ghost start = read_buffer@.position;
    let ghost initial = ways_view(ways@);
    let ghost mut kept: Seq<WayView> = Seq::empty();
    let mut block: u32 = 0;
    while block < count
        invariant
            block <= count,
            is_origin(tile_latitude as int, tile_longitude as int),
            common.layer == layer,
            common.tags == tags_view(tags@),
            match common.label_offsets {
                Some(offsets) => label_offsets matches Some(found) && found.0 == offsets.0
                    && found.1 == offsets.1,
                None => label_offsets is None,
            },
            common.named == named,
            common.double_delta == double_delta_encoding,
            query.filter == filter,
            query.selector == selector,
            query.tile_latitude == tile_latitude,
            query.tile_longitude == tile_longitude,
            old(read_buffer)@.same_region(read_buffer@),
            start == old(read_buffer)@.position,
            initial == ways_view(old(ways)@),
            ways_view(ways@) == initial + kept,
            spec_way_data_blocks(old(read_buffer)@.data, start, count as nat, common, query)
                == prepend_ways(
                kept,
                spec_way_data_blocks(
                    read_buffer@.data,
                    read_buffer@.position,
                    (count - block) as nat,
                    common,
                    query,
                ),
            ),
        decreases count - block,
    {
        let way_nodes: Vec<Vec<LatLong>> = match read_way_data_block(
            tile_latitude,
            tile_longitude,
            double_delta_encoding,
            read_buffer,
        ) {
            Ok(rings) => rings,
            Err(e) => {
                return Err(e);
            },
        };
        let ghost rings = rings_view(way_nodes@);
        let ghost before = kept;
        // a way that lies apart from the queried area is left out
        let touches: bool = match &filter {
            Some(bounding_box) => way_intersects_bbox(way_nodes.as_slice(), bounding_box),
            None => true,
        };
        let selected: bool = match selector {
            Selector::All => true,
            _ => named,
        };
        if touches && selected {
            let label_position: Option<LatLong> = match label_offsets {
                Some(offsets) => Some(
                    LatLong::new(
                        way_nodes[0][0].latitude + offsets.0 as i64,
                        way_nodes[0][0].longitude + offsets.1 as i64,
                    ),
                ),
                None => None,
            };
            let ghost previous = ways_view(ways@);
            let way = Way::new(layer, clone_tags(tags), way_nodes, label_position);
            proof {
                assert(rings[0][0] == way_nodes@[0]@[0]);
                assert(way@ == way_of(common, rings));
                kept = kept.push(way@);
            }
            ways.push(way);
            proof {
                assert(ways_view(ways@) =~= previous.push(way_of(common, rings)));
                assert(initial + kept =~= (initial + before).push(way_of(common, rings)));
            }
        }
        block = block + 1;
        proof {
            let rest = spec_way_data_blocks(
                read_buffer@.data,
                read_buffer@.position,
                (count - block) as nat,
                common,
                query,
            );
            if let Ok((tail, end)) = rest {
                assert(before + (seq![way_of(common, rings)] + tail) =~= before.push(
                    way_of(common, rings),
                ) + tail);
            }
        }
    }
    proof {
        assert(kept + Seq::<WayView>::empty() =~= kept);
    }
    Ok(())
}

/// Reads what follows the tile bitmask in a way record and appends the ways
/// that are kept.
fn read_way_body(
    way_tags: &[Tag],
    filter: Option<BoundingBox>,
    tile_latitude: i64,
    tile_longitude: i64,
    selector: Selector,
    ways: &mut Vec<Way>,
    read_buffer: &mut ReadBuffer,
    Ghost(query): Ghost<WayQuery>,
) -> (r: Result<(), MapFileException>)
    requires
        is_origin(tile_latitude as int, tile_longitude as int),
        query.way_tags == tags_view(way_tags@),
        query.filter == filter,
        query.selector == selector,
        query.tile_latitude == tile_latitude,
        query.tile_longitude == tile_longitude,
    ensures
        advanced(
            old(read_buffer)@,
            final(read_buffer)@,
            spec_way_body(old(read_buffer)@.data, old(read_buffer)@.position, query),
        ),
        match spec_way_body(old(read_buffer)@.data, old(read_buffer)@.position, query) {
            Ok((found, _)) => r is Ok && ways_view(final(ways)@) == ways_view(old(ways)@) + found,
            Err(e) => r == Err::<(), MapFileException>(e),
        },
{
    reveal(spec_way_body);
    // the layer and the number of tags
    let special_byte: u8 = read_buffer.read_byte()?;
    assert((special_byte & 0xf0) >> 4 <= 15) by (bit_vector);
    let layer: i8 = ((special_byte & 0xf0) >> 4) as i8;
    let number_of_tags: u8 = special_byte & 0x0f;

    let mut tags: Vec<Tag> = read_buffer.read_tags(way_tags, number_of_tags)?;

    // the optional features
    let feature_byte: u8 = read_buffer.read_byte()?;
    let feature_name: bool = (feature_byte & 0x80) != 0;
    let feature_house_number: bool = (feature_byte & 0x40) != 0;
    let feature_ref: bool = (feature_byte & 0x20) != 0;
    let feature_label_position: bool = (feature_byte & 0x10) != 0;
    let feature_data_blocks_byte: bool = (feature_byte & 0x08) != 0;
    let feature_double_delta_encoding: bool = (feature_byte & 0x04) != 0;

    read_optional_tag(feature_name, "name", &mut tags, read_buffer)?;
    read_optional_tag(feature_house_number, "addr:housenumber", &mut tags, read_buffer)?;
    read_optional_tag(feature_ref, "ref", &mut tags, read_buffer)?;

    let label_offsets: Option<(i32, i32)> = read_optional_label_position(
        feature_label_position,
        read_buffer,
    )?;
    let way_data_blocks: u32 = read_optional_way_data_blocks_byte(
        feature_data_blocks_byte,
        read_buffer,
    )?;

    let named: bool = feature_name || feature_house_number || feature_ref || has_label_tag(
        tags.as_slice(),
    );
    let ghost common = WayCommon {
        layer: layer as int,
        tags: tags_view(tags@),
        label_offsets: match label_offsets {
            Some(offsets) => Some((offsets.0 as int, offsets.1 as int)),
            None => None,
        },
        named,
        double_delta: feature_double_delta_encoding,
    };
    read_way_data_blocks(
        way_data_blocks,
        layer,
        &tags,
        label_offsets,
        named,
        feature_double_delta_encoding,
        filter,
        selector,
        tile_latitude,
        tile_longitude,
        ways,
        read_buffer,
        Ghost(common),
        Ghost(query),
    )
}

/// Reads one way record and appends the ways that are kept.
pub(crate) fn read_way(
    debug_file: bool,
    way_tags: &[Tag],
    use_tile_bitmask: bool,
    query_tile_bitmask: i32,
    filter: Option<BoundingBox>,
    tile_latitude: i64,
    tile_longitude: i64,
    selector: Selector,
    ways: &mut Vec<Way>,
    read_buffer: &mut ReadBuffer,
    Ghost(query): Ghost<WayQuery>,
) -> (r: Result<(), MapFileException>)
    requires
        is_origin(tile_latitude as int, tile_longitude as int),
        query.debug_file == debug_file,
        query.way_tags == tags_view(way_tags@),
        query.use_tile_bitmask == use_tile_bitmask,
        query.query_tile_bitmask == query_tile_bitmask,
        query.filter == filter,
        query.selector == selector,
        query.tile_latitude == tile_latitude,
        query.tile_longitude == tile_longitude,
    ensures
        advanced(
            old(read_buffer)@,
            final(read_buffer)@,
            spec_way(old(read_buffer)@.data, old(read_buffer)@.position, query),
        ),
        match spec_way(old(read_buffer)@.data, old(read_buffer)@.position, query) {
            Ok((found, _)) => r is Ok && ways_view(final(ways)@) == ways_view(old(ways)@) + found,
            Err(e) => r == Err::<(), MapFileException>(e),
        },
{
    reveal(spec_way);
    if debug_file {
        // a debug file marks the start of each way
        read_buffer.read_signature("---WayStart".as_bytes())?;
    }
    let way_data_size: u32 = read_buffer.read_unsigned_int()?;
    let tile_bitmask: i16 = read_buffer.read_short()?;
    if use_tile_bitmask && (query_tile_bitmask & (tile_bitmask as i32)) == 0 {
        // the way touches none of the queried tiles
        if way_data_size < 2 {
            return Err(MapFileException::new(ErrorKind::InvalidEncoding, way_data_size as i64));
        }
        read_buffer.skip_bytes((way_data_size - 2) as usize)?;
        assert(ways_view(ways@) + Seq::<WayView>::empty() =~= ways_view(ways@));
        return Ok(());
    }
    read_way_body(
        way_tags,
        filter,
        tile_latitude,
        tile_longitude,
        selector,
        ways,
        read_buffer,
        Ghost(query),
    )
}

} // verus!
