//! The rings of nodes of a way, in single-delta and in double-delta
//! encoding.

use crate::errors::MapFileException;
use crate::reader::{advanced, spec_read_signed_int, Parsed, ReadBuffer};
use crate::types::{LatLong, LatLongUtils};
use vstd::prelude::*;

verus! {

/// The largest number of rings of a way data block, and of nodes of a ring.
pub const COUNT_MAX: u32 = 32767;

/// A latitude and a longitude that a tile's corner can have.
pub open spec fn is_origin(latitude: int, longitude: int) -> bool {
    -90_000_000 <= latitude <= 90_000_000 && -180_000_000 <= longitude <= 180_000_000
}

/// A difference of latitude and of longitude in micro-degrees.
pub type Offset = (int, int);

/// `count` pairs of signed variable-byte integers from `pos`: in each pair
/// the difference of latitude, then that of longitude.
pub open spec fn spec_offsets(data: Seq<u8>, pos: int, count: nat) -> Parsed<Seq<Offset>>
    decreases count,
{
    if count == 0 {
        Ok((Seq::empty(), pos))
    } else {
        match spec_read_signed_int(data, pos) {
            Err(e) => Err(e),
            Ok((latitude, pos1)) => match spec_read_signed_int(data, pos1) {
                Err(e) => Err(e),
                Ok((longitude, pos2)) => match spec_offsets(data, pos2, (count - 1) as nat) {
                    Err(e) => Err(e),
                    Ok((rest, end)) => Ok(
                        (seq![(latitude as int, longitude as int)] + rest, end),
                    ),
                },
            },
        }
    }
}

/// The outcome of reading more pairs after `done` have been read.
pub open spec fn prepend_offsets(done: Seq<Offset>, rest: Parsed<Seq<Offset>>) -> Parsed<
    Seq<Offset>,
> {
    match rest {
        Ok((offsets, end)) => Ok((done + offsets, end)),
        Err(e) => Err(e),
    }
}

/// The node that lies `offset` from `previous`. A longitude less than a
/// thousandth of a degree beyond the date line becomes the date line.
pub open spec fn node_after(previous: LatLong, offset: Offset) -> LatLong {
    LatLong {
        latitude: (previous.latitude + offset.0) as i64,
        longitude: LatLongUtils::spec_snap_longitude(previous.longitude + offset.1) as i64,
    }
}

/// The sum of the offsets.
pub open spec fn offset_sum(offsets: Seq<Offset>) -> Offset
    decreases offsets.len(),
{
    if offsets.len() == 0 {
        (0, 0)
    } else {
        let before = offset_sum(offsets.drop_last());
        (before.0 + offsets.last().0, before.1 + offsets.last().1)
    }
}

/// The last of `nodes`, or `origin` where there is none.
pub open spec fn last_or(nodes: Seq<LatLong>, origin: LatLong) -> LatLong {
    if nodes.len() == 0 {
        origin
    } else {
        nodes.last()
    }
}

/// The nodes of a ring in single-delta encoding: each offset leads from the
/// node before it to the next, the first from the tile's corner `origin`.
pub open spec fn single_delta_nodes(origin: LatLong, offsets: Seq<Offset>) -> Seq<LatLong>
    decreases offsets.len(),
{
    if offsets.len() == 0 {
        Seq::empty()
    } else {
        let before = single_delta_nodes(origin, offsets.drop_last());
        before.push(node_after(last_or(before, origin), offsets.last()))
    }
}

/// The nodes of a ring in double-delta encoding: the first offset leads from
/// the tile's corner `origin` to the first node; each later offset is the
/// change of the step, which is zero before the second node.
pub open spec fn double_delta_nodes(origin: LatLong, offsets: Seq<Offset>) -> Seq<LatLong>
    decreases offsets.len(),
{
    if offsets.len() == 0 {
        Seq::empty()
    } else if offsets.len() == 1 {
        seq![node_after(origin, offsets[0])]
    } else {
        let before = double_delta_nodes(origin, offsets.drop_last());
        before.push(
            node_after(
                last_or(before, origin),
                offset_sum(offsets.subrange(1, offsets.len() as int)),
            ),
        )
    }
}

/// The nodes of a ring of `count` nodes at `pos`.
pub open spec fn spec_ring(
    data: Seq<u8>,
    pos: int,
    count: nat,
    origin: LatLong,
    double_delta: bool,
) -> Parsed<Seq<LatLong>> {
    match spec_offsets(data, pos, count) {
        Err(e) => Err(e),
        Ok((offsets, next)) => Ok((ring_nodes(origin, offsets, double_delta), next)),
    }
}

/// The two encodings give the same nodes where they say the same: the first
/// offsets agree, and every later single delta is the sum of the double
/// deltas from the second on.
pub proof fn lemma_single_and_double_delta_agree(
    origin: LatLong,
    single: Seq<Offset>,
    double: Seq<Offset>,
)
    requires
        single.len() == double.len(),
        single.len() > 0 ==> single[0] == double[0],
        forall|k: int|
            1 <= k < single.len() ==> #[trigger] single[k] == offset_sum(double.subrange(1, k + 1)),
    ensures
        single_delta_nodes(origin, single) == double_delta_nodes(origin, double),
    decreases single.len(),
{
    if single.len() == 1 {
        assert(single.drop_last() =~= Seq::<Offset>::empty());
        assert(single_delta_nodes(origin, single.drop_last()) =~= Seq::<LatLong>::empty());
        assert(single_delta_nodes(origin, single) =~= seq![node_after(origin, single[0])]);
    } else if single.len() > 1 {
        let shorter = single.drop_last();
        let other = double.drop_last();
        assert forall|k: int| 1 <= k < shorter.len() implies #[trigger] shorter[k] == offset_sum(
            other.subrange(1, k + 1),
        ) by {
            assert(other.subrange(1, k + 1) =~= double.subrange(1, k + 1));
            assert(shorter[k] == single[k]);
        }
        lemma_single_and_double_delta_agree(origin, shorter, other);
        let last = single.len() - 1;
        assert(single[last] == offset_sum(double.subrange(1, last + 1)));
    }
}

/// Every node lies so near that a label offset can be added to it.
pub open spec fn nodes_in_reach(nodes: Seq<LatLong>) -> bool {
    forall|k: int|
        0 <= k < nodes.len() ==> -0x2000_0000_0000_0000 <= (#[trigger] nodes[k]).latitude
            <= 0x2000_0000_0000_0000 && -0x2000_0000_0000_0000 <= nodes[k].longitude
            <= 0x2000_0000_0000_0000
}

/// The step that leads to the next node after the offsets `seen`, when the
/// offset `offset` is read: the offset itself, or in double-delta encoding
/// from the second node on the sum of `offset` and the step before.
pub open spec fn next_step(seen: Seq<Offset>, offset: Offset, double_delta: bool) -> Offset {
    if double_delta && seen.len() >= 1 {
        let before = offset_sum(seen.subrange(1, seen.len() as int));
        (before.0 + offset.0, before.1 + offset.1)
    } else {
        offset
    }
}

/// The nodes of a ring in the given encoding.
pub open spec fn ring_nodes(origin: LatLong, offsets: Seq<Offset>, double_delta: bool) -> Seq<
    LatLong,
> {
    if double_delta {
        double_delta_nodes(origin, offsets)
    } else {
        single_delta_nodes(origin, offsets)
    }
}

/// One more offset gives one more node, the next step from the last node.
proof fn lemma_ring_grows(origin: LatLong, seen: Seq<Offset>, offset: Offset, double_delta: bool)
    ensures
        ring_nodes(origin, seen.push(offset), double_delta) == ring_nodes(
            origin,
            seen,
            double_delta,
        ).push(
            node_after(
                last_or(ring_nodes(origin, seen, double_delta), origin),
                next_step(seen, offset, double_delta),
            ),
        ),
        seen.len() >= 1 ==> offset_sum(seen.push(offset).subrange(1, seen.len() as int + 1)) == (
            offset_sum(seen.subrange(1, seen.len() as int)).0 + offset.0,
            offset_sum(seen.subrange(1, seen.len() as int)).1 + offset.1,
        ),
{
    let longer = seen.push(offset);
    assert(longer.drop_last() =~= seen);
    if seen.len() >= 1 {
        let tail = longer.subrange(1, longer.len() as int);
        assert(tail.drop_last() =~= seen.subrange(1, seen.len() as int));
        assert(tail.last() == offset);
    } else {
        assert(double_delta_nodes(origin, seen) =~= Seq::<LatLong>::empty());
        assert(single_delta_nodes(origin, seen) =~= Seq::<LatLong>::empty());
        assert(seq![node_after(origin, offset)] =~= Seq::<LatLong>::empty().push(
            node_after(origin, offset),
        ));
    }
}

/// Reads the nodes of one ring. `double_delta` tells the encoding.
pub(crate) fn decode_way_nodes(
    number_of_way_nodes: usize,
    tile_latitude: i64,
    tile_longitude: i64,
    double_delta: bool,
    read_buffer: &mut ReadBuffer,
) -> (r: Result<Vec<LatLong>, MapFileException>)
    requires
        number_of_way_nodes <= COUNT_MAX,
        is_origin(tile_latitude as int, tile_longitude as int),
    ensures
        advanced(
            old(read_buffer)@,
            final(read_buffer)@,
            spec_ring(
                old(read_buffer)@.data,
                old(read_buffer)@.position,
                number_of_way_nodes as nat,
                LatLong { latitude: tile_latitude, longitude: tile_longitude },
                double_delta,
            ),
        ),
        match spec_ring(
            old(read_buffer)@.data,
            old(read_buffer)@.position,
            number_of_way_nodes as nat,
            LatLong { latitude: tile_latitude, longitude: tile_longitude },
            double_delta,
        ) {
            Ok((nodes, _)) => r matches Ok(found) && found@ == nodes && found@.len()
                == number_of_way_nodes && nodes_in_reach(found@),
            Err(e) => r == Err::<Vec<LatLong>, MapFileException>(e),
        },
{
    let ghost origin = LatLong { latitude: tile_latitude, longitude: tile_longitude };
    let ghost start = read_buffer@.position;
    let ghost mut seen: Seq<Offset> = Seq::empty();
    let mut way_segment: Vec<LatLong> = Vec::new();
    let mut way_node_latitude: i64 = tile_latitude;
    let mut way_node_longitude: i64 = tile_longitude;
    let mut previous_single_delta_latitude: i64 = 0;
    let mut previous_single_delta_longitude: i64 = 0;
    let mut way_segment_pos: usize = 0;
    while way_segment_pos < number_of_way_nodes
        invariant
            way_segment_pos <= number_of_way_nodes <= 32767,
            is_origin(tile_latitude as int, tile_longitude as int),
            origin == (LatLong { latitude: tile_latitude, longitude: tile_longitude }),
            old(read_buffer)@.same_region(read_buffer@),
            start == old(read_buffer)@.position,
            seen.len() == way_segment_pos,
            way_segment@.len() == way_segment_pos,
            nodes_in_reach(way_segment@),
            spec_offsets(old(read_buffer)@.data, start, number_of_way_nodes as nat)
                == prepend_offsets(
                seen,
                spec_offsets(
                    read_buffer@.data,
                    read_buffer@.position,
                    (number_of_way_nodes - way_segment_pos) as nat,
                ),
            ),
            way_segment@ == ring_nodes(origin, seen, double_delta),
            last_or(way_segment@, origin) == (LatLong {
                latitude: way_node_latitude,
                longitude: way_node_longitude,
            }),
            double_delta && way_segment_pos >= 1 ==> (previous_single_delta_latitude as int)
                == offset_sum(seen.subrange(1, seen.len() as int)).0,
            double_delta && way_segment_pos >= 1 ==> (previous_single_delta_longitude as int)
                == offset_sum(seen.subrange(1, seen.len() as int)).1,
            -way_segment_pos * 0x8000_0000 <= previous_single_delta_latitude <= way_segment_pos
                * 0x8000_0000,
            -way_segment_pos * 0x8000_0000 <= previous_single_delta_longitude
                <= way_segment_pos * 0x8000_0000,
            -90_000_000 - way_segment_pos * 0x4000_0000_0000 <= way_node_latitude <= 90_000_000
                + way_segment_pos * 0x4000_0000_0000,
            -180_000_000 - way_segment_pos * 0x4000_0000_0000 <= way_node_longitude
                <= 180_000_000 + way_segment_pos * 0x4000_0000_0000,
        decreases number_of_way_nodes - way_segment_pos,
    {
        let (latitude_offset, longitude_offset) = match read_offset(
            read_buffer,
            Ghost((number_of_way_nodes - way_segment_pos) as nat),
        ) {
            Ok(offset) => offset,
            Err(e) => {
                return Err(e);
            },
        };
        let ghost offset: Offset = (latitude_offset as int, longitude_offset as int);
        proof {
            lemma_ring_grows(origin, seen, offset, double_delta);
            let rest = spec_offsets(
                read_buffer@.data,
                read_buffer@.position,
                (number_of_way_nodes - way_segment_pos - 1) as nat,
            );
            if let Ok((tail, end)) = rest {
                assert(seen + (seq![offset] + tail) =~= seen.push(offset) + tail);
            }
            seen = seen.push(offset);
        }
        // the step from the node before
        let mut single_delta_latitude: i64 = latitude_offset as i64;
        let mut single_delta_longitude: i64 = longitude_offset as i64;
        if double_delta && way_segment_pos >= 1 {
            single_delta_latitude = single_delta_latitude + previous_single_delta_latitude;
            single_delta_longitude = single_delta_longitude + previous_single_delta_longitude;
            previous_single_delta_latitude = single_delta_latitude;
            previous_single_delta_longitude = single_delta_longitude;
        }
        way_node_latitude = way_node_latitude + single_delta_latitude;
        way_node_longitude = LatLongUtils::snap_longitude(
            way_node_longitude + single_delta_longitude,
        );
        way_segment.push(LatLong::new(way_node_latitude, way_node_longitude));
        way_segment_pos += 1;
    }
    proof {
        assert(seen + Seq::<Offset>::empty() =~= seen);
    }
    Ok(way_segment)
}

/// Reads the offsets of latitude and of longitude of one node, of `left`
/// nodes that are still to read.
fn read_offset(read_buffer: &mut ReadBuffer, Ghost(left): Ghost<nat>) -> (r: Result<
    (i32, i32),
    MapFileException,
>)
    requires
        left >= 1,
    ensures
        old(read_buffer)@.same_region(final(read_buffer)@),
        match r {
            Ok(offset) => spec_offsets(
                old(read_buffer)@.data,
                old(read_buffer)@.position,
                left,
            ) == prepend_offsets(
                seq![(offset.0 as int, offset.1 as int)],
                spec_offsets(
                    final(read_buffer)@.data,
                    final(read_buffer)@.position,
                    (left - 1) as nat,
                ),
            ),
            Err(e) => spec_offsets(old(read_buffer)@.data, old(read_buffer)@.position, left)
                == Err::<(Seq<Offset>, int), MapFileException>(e),
        },
{
    let latitude_offset: i32 = read_buffer.read_signed_int()?;
    let longitude_offset: i32 = read_buffer.read_signed_int()?;
    Ok((latitude_offset, longitude_offset))
}

} // verus!
