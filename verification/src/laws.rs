//! What holds of the reader as a whole.

use crate::block::{spec_block, spec_block_lookup, BlockLookup, BlockQuery};
use crate::errors::MapFileException;
use crate::map_data::{BundleView, PoiView, ResultView, WayView};
use crate::map_file::{MapFileView, Selector};
use crate::poi::{spec_poi, spec_pois, PoiQuery};
use crate::query::{Progress, Query, TileGridView};
use crate::reader::{
    encode_signed,
    has_prefix,
    lemma_signed_round_trip,
    spec_read_signed_int,
};
use crate::ring::{
    double_delta_nodes,
    last_or,
    lemma_single_and_double_delta_agree,
    node_after,
    offset_sum,
    single_delta_nodes,
    spec_offsets,
    spec_ring,
    Offset,
};
use crate::tile::Tile;
use crate::types::{meters_to_microdegrees, BoundingBox, LatLong, LatLongUtils};
use crate::way::{
    rings_touch,
    spec_way,
    spec_way_body,
    spec_way_data_block,
    spec_way_data_blocks,
    spec_ways,
    way_kept,
    way_of,
    WayCommon,
    WayQuery,
};
use vstd::prelude::*;

verus! {

/// The ways of `some` are among `all`, in the order in which `all` holds
/// them: `some` is what is left of `all` when ways are taken out of it.
pub open spec fn ways_among(some: Seq<WayView>, all: Seq<WayView>) -> bool
    decreases all.len(),
{
    if some.len() == 0 {
        true
    } else if all.len() == 0 {
        false
    } else {
        (some[0] == all[0] && ways_among(some.drop_first(), all.drop_first())) || ways_among(
            some,
            all.drop_first(),
        )
    }
}

/// Ways that are among others are each one of them.
pub proof fn lemma_ways_among_are_contained(some: Seq<WayView>, all: Seq<WayView>, index: int)
    requires
        ways_among(some, all),
        0 <= index < some.len(),
    ensures
        all.contains(some[index]),
    decreases all.len(),
{
    let rest = all.drop_first();
    if some[0] == all[0] && ways_among(some.drop_first(), rest) {
        if index == 0 {
            assert(all[0] == some[index]);
        } else {
            lemma_ways_among_are_contained(some.drop_first(), rest, index - 1);
            let found = choose|j: int| 0 <= j < rest.len() && rest[j] == some[index];
            assert(all[found + 1] == some[index]);
        }
    } else {
        lemma_ways_among_are_contained(some, rest, index);
        let found = choose|j: int| 0 <= j < rest.len() && rest[j] == some[index];
        assert(all[found + 1] == some[index]);
    }
}

/// Ways that are among others are among them still when more ways come
/// before the others.
proof fn lemma_among_after(some: Seq<WayView>, before: Seq<WayView>, all: Seq<WayView>)
    requires
        ways_among(some, all),
    ensures
        ways_among(some, before + all),
    decreases before.len(),
{
    if before.len() == 0 {
        assert(before + all =~= all);
    } else {
        lemma_among_after(some, before.drop_first(), all);
        assert((before + all).drop_first() =~= before.drop_first() + all);
    }
}

/// Two readings of way records agree: they fail alike, or they end at the
/// same place and the ways of the first are among those of the second, in
/// their order.
pub open spec fn ways_agree(
    named: Result<(Seq<WayView>, int), MapFileException>,
    all: Result<(Seq<WayView>, int), MapFileException>,
) -> bool {
    match (named, all) {
        (Ok((some, end)), Ok((every, other_end))) => end == other_end && ways_among(some, every),
        (Err(e), Err(other)) => e == other,
        _ => false,
    }
}

/// The bundle of a block read for the named items holds the same points as
/// the bundle read for all items, and ways that are among its ways, in their
/// order.
pub open spec fn bundle_among(named: BundleView, all: BundleView) -> bool {
    named.pois == all.pois && ways_among(named.ways, all.ways)
}

/// What two queries have gathered agrees bundle by bundle.
pub open spec fn progress_among(named: Progress, all: Progress) -> bool {
    &&& named.all_water == all.all_water
    &&& named.any_seen == all.any_seen
    &&& named.bundles.len() == all.bundles.len()
    &&& forall|i: int|
        0 <= i < named.bundles.len() ==> bundle_among(#[trigger] named.bundles[i], all.bundles[i])
}

/// Two answers agree: they fail alike, or they tell the same of water and
/// hold as many bundles, of which each of the first has the points of its
/// partner in the second and ways that are among its partner's ways, in
/// their order.
pub open spec fn answers_agree(
    named: Result<ResultView, MapFileException>,
    all: Result<ResultView, MapFileException>,
) -> bool {
    match (named, all) {
        (Ok(some), Ok(every)) => {
            &&& some.is_water == every.is_water
            &&& some.poi_way_bundles.len() == every.poi_way_bundles.len()
            &&& forall|i: int|
                0 <= i < some.poi_way_bundles.len() ==> bundle_among(
                    #[trigger] some.poi_way_bundles[i],
                    every.poi_way_bundles[i],
                )
        },
        (Err(e), Err(other)) => e == other,
        _ => false,
    }
}

/// The query for the named items that reads the same ways as `all`.
pub open spec fn named_ways(all: WayQuery) -> WayQuery {
    WayQuery { selector: Selector::Named, ..all }
}

proof fn lemma_among_concat(
    some: Seq<WayView>,
    every: Seq<WayView>,
    more: Seq<WayView>,
    others: Seq<WayView>,
)
    requires
        ways_among(some, every),
        ways_among(more, others),
    ensures
        ways_among(some + more, every + others),
    decreases every.len(),
{
    if some.len() == 0 {
        assert(some + more =~= more);
        lemma_among_after(more, every, others);
    } else {
        assert((every + others).drop_first() =~= every.drop_first() + others);
        assert((some + more)[0] == some[0]);
        assert((every + others)[0] == every[0]);
        if some[0] == every[0] && ways_among(some.drop_first(), every.drop_first()) {
            lemma_among_concat(some.drop_first(), every.drop_first(), more, others);
            assert((some + more).drop_first() =~= some.drop_first() + more);
        } else {
            lemma_among_concat(some, every.drop_first(), more, others);
        }
    }
}

proof fn lemma_way_data_blocks_agree(
    data: Seq<u8>,
    pos: int,
    count: nat,
    common: WayCommon,
    all: WayQuery,
)
    requires
        all.selector == Selector::All,
    ensures
        ways_agree(
            spec_way_data_blocks(data, pos, count, common, named_ways(all)),
            spec_way_data_blocks(data, pos, count, common, all),
        ),
    decreases count,
{
    if count > 0 {
        let origin = LatLong {
            latitude: all.tile_latitude,
            longitude: all.tile_longitude,
        };
        match spec_way_data_block(data, pos, origin, common.double_delta) {
            Err(_) => {},
            Ok((rings, next)) => {
                lemma_way_data_blocks_agree(data, next, (count - 1) as nat, common, all);
                let named = named_ways(all);
                match (
                    spec_way_data_blocks(data, next, (count - 1) as nat, common, named),
                    spec_way_data_blocks(data, next, (count - 1) as nat, common, all),
                ) {
                    (Ok((some, _)), Ok((every, _))) => {
                        let way = way_of(common, rings);
                        let kept_named = way_kept(common, rings, named);
                        let kept_all = way_kept(common, rings, all);
                        assert(kept_named ==> kept_all);
                        assert(ways_among(seq![way], seq![way])) by {
                            let rest = seq![way].drop_first();
                            assert(rest =~= Seq::<WayView>::empty());
                            assert(ways_among(rest, rest));
                        }
                        assert(ways_among(Seq::<WayView>::empty(), seq![way]));
                        if kept_named {
                            lemma_among_concat(seq![way], seq![way], some, every);
                        } else if kept_all {
                            lemma_among_concat(Seq::empty(), seq![way], some, every);
                            assert(Seq::<WayView>::empty() + some =~= some);
                        }
                    },
                    _ => {},
                }
            },
        }
    }
}

proof fn lemma_way_agrees(data: Seq<u8>, pos: int, all: WayQuery)
    requires
        all.selector == Selector::All,
    ensures
        ways_agree(spec_way(data, pos, named_ways(all)), spec_way(data, pos, all)),
{
    reveal(spec_way);
    reveal(spec_way_body);
    assert(ways_among(Seq::<WayView>::empty(), Seq::<WayView>::empty()));
    assert forall|at: int, count: nat, common: WayCommon|
        ways_agree(
            #[trigger] spec_way_data_blocks(data, at, count, common, named_ways(all)),
            spec_way_data_blocks(data, at, count, common, all),
        ) by {
        lemma_way_data_blocks_agree(data, at, count, common, all);
    }
}

proof fn lemma_ways_agree(data: Seq<u8>, pos: int, count: nat, all: WayQuery)
    requires
        all.selector == Selector::All,
    ensures
        ways_agree(
            spec_ways(data, pos, count, named_ways(all)),
            spec_ways(data, pos, count, all),
        ),
    decreases count,
{
    if count == 0 {
        assert(ways_among(Seq::<WayView>::empty(), Seq::<WayView>::empty()));
    } else {
        lemma_way_agrees(data, pos, all);
        match spec_way(data, pos, all) {
            Err(_) => {},
            Ok((every, next)) => {
                lemma_ways_agree(data, next, (count - 1) as nat, all);
                match (
                    spec_way(data, pos, named_ways(all)),
                    spec_ways(data, next, (count - 1) as nat, named_ways(all)),
                    spec_ways(data, next, (count - 1) as nat, all),
                ) {
                    (Ok((some, _)), Ok((more, _)), Ok((others, _))) => {
                        lemma_among_concat(some, every, more, others);
                    },
                    _ => {},
                }
            },
        }
    }
}

/// The query for a block that differs from `query` in its selector only.
pub open spec fn with_selector(query: BlockQuery, selector: Selector) -> BlockQuery {
    BlockQuery { way: WayQuery { selector, ..query.way }, ..query }
}

/// A block read for the named items fails as it does read for all items, or
/// gives the same points and ways that are among all its ways, in their
/// order.
pub proof fn lemma_block_named_among_all(data: Seq<u8>, pos: int, query: BlockQuery)
    requires
        query.way.selector == Selector::All,
    ensures
        match (
            spec_block(data, pos, with_selector(query, Selector::Named)),
            spec_block(data, pos, query),
        ) {
            (Ok(named), Ok(all)) => bundle_among(named, all),
            (Err(e), Err(other)) => e == other,
            _ => false,
        },
{
    reveal(spec_block);
    assert(named_ways(query.way) == with_selector(query, Selector::Named).way);
    assert forall|at: int, count: nat|
        ways_agree(
            #[trigger] spec_ways(data, at, count, named_ways(query.way)),
            spec_ways(data, at, count, query.way),
        ) by {
        lemma_ways_agree(data, at, count, query.way);
    }
}

/// A block read for its points gives no way.
pub proof fn lemma_block_of_pois_has_no_ways(data: Seq<u8>, pos: int, query: BlockQuery)
    requires
        query.way.selector == Selector::Pois,
    ensures
        spec_block(data, pos, query) matches Ok(bundle) ==> bundle.ways.len() == 0,
{
    reveal(spec_block);
}

/// The query that differs from `query` in its selector only.
pub open spec fn query_with(query: Query, selector: Selector) -> Query {
    Query { selector, ..query }
}

proof fn lemma_visit_agrees(
    all: Query,
    named_progress: Progress,
    progress: Progress,
    row: int,
    column: int,
)
    requires
        all.selector == Selector::All,
        progress_among(named_progress, progress),
    ensures
        match (
            query_with(all, Selector::Named).visit(named_progress, row, column),
            all.visit(progress, row, column),
        ) {
            (Ok(some), Ok(every)) => progress_among(some, every),
            (Err(e), Err(other)) => e == other,
            _ => false,
        },
{
    let named = query_with(all, Selector::Named);
    match spec_block_lookup(all.map.file, all.sub_file, row * all.sub_file.blocks_width + column) {
        BlockLookup::Data { water, data } => {
            assert(named.block_query(row, column) == with_selector(
                all.block_query(row, column),
                Selector::Named,
            ));
            lemma_block_named_among_all(data, 0, all.block_query(row, column));
        },
        _ => {},
    }
}

proof fn lemma_columns_agree(
    all: Query,
    named_progress: Progress,
    progress: Progress,
    row: int,
    column: int,
)
    requires
        all.selector == Selector::All,
        progress_among(named_progress, progress),
    ensures
        match (
            query_with(all, Selector::Named).columns(named_progress, row, column),
            all.columns(progress, row, column),
        ) {
            (Ok(some), Ok(every)) => progress_among(some, every),
            (Err(e), Err(other)) => e == other,
            _ => false,
        },
    decreases all.parameters.to_block_x - column + 1,
{
    if column <= all.parameters.to_block_x {
        lemma_visit_agrees(all, named_progress, progress, row, column);
        match (
            query_with(all, Selector::Named).visit(named_progress, row, column),
            all.visit(progress, row, column),
        ) {
            (Ok(some), Ok(every)) => {
                lemma_columns_agree(all, some, every, row, column + 1);
            },
            _ => {},
        }
    }
}

proof fn lemma_rows_agree(all: Query, named_progress: Progress, progress: Progress, row: int)
    requires
        all.selector == Selector::All,
        progress_among(named_progress, progress),
    ensures
        match (
            query_with(all, Selector::Named).rows(named_progress, row),
            all.rows(progress, row),
        ) {
            (Ok(some), Ok(every)) => progress_among(some, every),
            (Err(e), Err(other)) => e == other,
            _ => false,
        },
    decreases all.parameters.to_block_y - row + 1,
{
    if row <= all.parameters.to_block_y {
        lemma_columns_agree(
            all,
            named_progress,
            progress,
            row,
            all.parameters.from_block_x as int,
        );
        match (
            query_with(all, Selector::Named).columns(
                named_progress,
                row,
                all.parameters.from_block_x as int,
            ),
            all.columns(progress, row, all.parameters.from_block_x as int),
        ) {
            (Ok(some), Ok(every)) => {
                lemma_rows_agree(all, some, every, row + 1);
            },
            _ => {},
        }
    }
}

/// The named items of a rectangle of tiles are among its map data: the two
/// queries fail alike, or they tell the same of water and give as many
/// bundles, of which each bundle of named items holds the points of its
/// partner and ways that are among its partner's ways, in the order in
/// which its partner holds them.
pub proof fn lemma_named_items_are_among_map_data(
    map: MapFileView,
    upper_left: Tile,
    lower_right: Tile,
    grid: TileGridView,
)
    ensures
        answers_agree(
            map.answer(upper_left, lower_right, Selector::Named, grid),
            map.answer(upper_left, lower_right, Selector::All, grid),
        ),
{
    match map.plan(upper_left, lower_right) {
        Err(_) => {},
        Ok((parameters, sub_file)) => {
            let all = Query { map, parameters, sub_file, grid, selector: Selector::All };
            assert(query_with(all, Selector::Named) == (Query {
                map,
                parameters,
                sub_file,
                grid,
                selector: Selector::Named,
            }));
            lemma_rows_agree(
                all,
                Progress::start(),
                Progress::start(),
                parameters.from_block_y as int,
            );
        },
    }
}

/// No bundle that was gathered holds a way.
pub open spec fn without_ways(progress: Progress) -> bool {
    forall|i: int|
        0 <= i < progress.bundles.len() ==> (#[trigger] progress.bundles[i]).ways.len() == 0
}

proof fn lemma_columns_without_ways(query: Query, progress: Progress, row: int, column: int)
    requires
        query.selector == Selector::Pois,
        without_ways(progress),
    ensures
        query.columns(progress, row, column) matches Ok(next) ==> without_ways(next),
    decreases query.parameters.to_block_x - column + 1,
{
    if column <= query.parameters.to_block_x {
        match spec_block_lookup(
            query.map.file,
            query.sub_file,
            row * query.sub_file.blocks_width + column,
        ) {
            BlockLookup::Data { water, data } => {
                lemma_block_of_pois_has_no_ways(data, 0, query.block_query(row, column));
            },
            _ => {},
        }
        match query.visit(progress, row, column) {
            Ok(next) => {
                lemma_columns_without_ways(query, next, row, column + 1);
            },
            Err(_) => {},
        }
    }
}

proof fn lemma_rows_without_ways(query: Query, progress: Progress, row: int)
    requires
        query.selector == Selector::Pois,
        without_ways(progress),
    ensures
        query.rows(progress, row) matches Ok(next) ==> without_ways(next),
    decreases query.parameters.to_block_y - row + 1,
{
    if row <= query.parameters.to_block_y {
        lemma_columns_without_ways(query, progress, row, query.parameters.from_block_x as int);
        match query.columns(progress, row, query.parameters.from_block_x as int) {
            Ok(next) => {
                lemma_rows_without_ways(query, next, row + 1);
            },
            Err(_) => {},
        }
    }
}

/// The POI data of a rectangle of tiles holds no way.
pub proof fn lemma_poi_data_has_no_ways(
    map: MapFileView,
    upper_left: Tile,
    lower_right: Tile,
    grid: TileGridView,
)
    ensures
        map.answer(upper_left, lower_right, Selector::Pois, grid) matches Ok(answer) ==> forall|
            i: int,
        |
            0 <= i < answer.poi_way_bundles.len() ==> (
            #[trigger] answer.poi_way_bundles[i]).ways.len() == 0,
{
    match map.plan(upper_left, lower_right) {
        Err(_) => {},
        Ok((parameters, sub_file)) => {
            let query = Query { map, parameters, sub_file, grid, selector: Selector::Pois };
            lemma_rows_without_ways(query, Progress::start(), parameters.from_block_y as int);
        },
    }
}

/// Every point lies in the box.
pub open spec fn pois_inside(pois: Seq<PoiView>, bounding_box: BoundingBox) -> bool {
    forall|i: int|
        0 <= i < pois.len() ==> bounding_box.spec_contains(
            (#[trigger] pois[i]).position.latitude as int,
            pois[i].position.longitude as int,
        )
}

/// Every way has a node in the box.
pub open spec fn ways_touch(ways: Seq<WayView>, bounding_box: BoundingBox) -> bool {
    forall|i: int| 0 <= i < ways.len() ==> rings_touch((#[trigger] ways[i]).way_nodes, bounding_box)
}

/// The ways that were read, if any were, each have a node in the box.
pub open spec fn read_ways_touch(
    read: Result<(Seq<WayView>, int), MapFileException>,
    bounding_box: BoundingBox,
) -> bool {
    match read {
        Ok((ways, _)) => ways_touch(ways, bounding_box),
        Err(_) => true,
    }
}

/// The points that were read, if any were, lie in the box.
pub open spec fn read_pois_inside(
    read: Result<(Seq<PoiView>, int), MapFileException>,
    bounding_box: BoundingBox,
) -> bool {
    match read {
        Ok((pois, _)) => pois_inside(pois, bounding_box),
        Err(_) => true,
    }
}

/// The points of the bundle lie in the box of the query and, where ways are
/// filtered, each of its ways has a node in their box.
pub open spec fn bundle_near(bundle: BundleView, query: BlockQuery) -> bool {
    &&& pois_inside(bundle.pois, query.poi.bounding_box)
    &&& match query.way.filter {
        Some(bounding_box) => ways_touch(bundle.ways, bounding_box),
        None => true,
    }
}

proof fn lemma_kept_pois_lie_inside(data: Seq<u8>, pos: int, count: nat, query: PoiQuery)
    requires
        query.filter_required,
    ensures
        spec_pois(data, pos, count, query) matches Ok((pois, _)) ==> pois_inside(
            pois,
            query.bounding_box,
        ),
    decreases count,
{
    if count > 0 {
        match spec_poi(data, pos, query) {
            Err(_) => {},
            Ok((poi, next)) => {
                lemma_kept_pois_lie_inside(data, next, (count - 1) as nat, query);
            },
        }
    }
}

proof fn lemma_kept_data_blocks_touch(
    data: Seq<u8>,
    pos: int,
    count: nat,
    common: WayCommon,
    query: WayQuery,
)
    requires
        query.filter is Some,
    ensures
        spec_way_data_blocks(data, pos, count, common, query) matches Ok((ways, _)) ==> ways_touch(
            ways,
            query.filter->0,
        ),
    decreases count,
{
    if count > 0 {
        let origin = LatLong {
            latitude: query.tile_latitude,
            longitude: query.tile_longitude,
        };
        match spec_way_data_block(data, pos, origin, common.double_delta) {
            Err(_) => {},
            Ok((rings, next)) => {
                lemma_kept_data_blocks_touch(data, next, (count - 1) as nat, common, query);
            },
        }
    }
}

proof fn lemma_kept_ways_touch(data: Seq<u8>, pos: int, count: nat, query: WayQuery)
    requires
        query.filter is Some,
    ensures
        spec_ways(data, pos, count, query) matches Ok((ways, _)) ==> ways_touch(
            ways,
            query.filter->0,
        ),
    decreases count,
{
    if count > 0 {
        reveal(spec_way);
        reveal(spec_way_body);
        assert forall|at: int, blocks: nat, common: WayCommon|
            read_ways_touch(
                #[trigger] spec_way_data_blocks(data, at, blocks, common, query),
                query.filter->0,
            ) by {
            lemma_kept_data_blocks_touch(data, at, blocks, common, query);
        }
        match spec_way(data, pos, query) {
            Err(_) => {},
            Ok((ways, next)) => {
                lemma_kept_ways_touch(data, next, (count - 1) as nat, query);
            },
        }
    }
}

/// Where a filter is required, the points of a block that are kept lie in
/// the box of the query, and each way that is kept has a node in the box
/// that ways are held against, if they are.
pub proof fn lemma_filtered_block_is_near(data: Seq<u8>, pos: int, query: BlockQuery)
    requires
        query.poi.filter_required,
    ensures
        spec_block(data, pos, query) matches Ok(bundle) ==> bundle_near(bundle, query),
{
    reveal(spec_block);
    assert forall|at: int, count: nat|
        read_pois_inside(
            #[trigger] spec_pois(data, at, count, query.poi),
            query.poi.bounding_box,
        ) by {
        lemma_kept_pois_lie_inside(data, at, count, query.poi);
    }
    if query.way.filter is Some {
        assert forall|at: int, count: nat|
            read_ways_touch(
                #[trigger] spec_ways(data, at, count, query.way),
                query.way.filter->0,
            ) by {
            lemma_kept_ways_touch(data, at, count, query.way);
        }
    }
}

/// The points of every bundle lie in the box of the queried tiles and,
/// where the map file filters ways, each way of every bundle has a node in
/// that box grown by the way filter distance.
pub open spec fn progress_near(progress: Progress, query: Query) -> bool {
    forall|i: int|
        0 <= i < progress.bundles.len() ==> {
            &&& pois_inside((#[trigger] progress.bundles[i]).pois, query.grid.bounding_box)
            &&& query.map.way_filter_enabled ==> ways_touch(
                progress.bundles[i].ways,
                query.grid.bounding_box.spec_extend(
                    meters_to_microdegrees(query.map.way_filter_distance as int),
                ),
            )
        }
}

proof fn lemma_columns_near(query: Query, progress: Progress, row: int, column: int)
    requires
        query.parameters.query_zoom_level > query.sub_file.base_zoom_level,
        progress_near(progress, query),
    ensures
        query.columns(progress, row, column) matches Ok(next) ==> progress_near(next, query),
    decreases query.parameters.to_block_x - column + 1,
{
    if column <= query.parameters.to_block_x {
        match spec_block_lookup(
            query.map.file,
            query.sub_file,
            row * query.sub_file.blocks_width + column,
        ) {
            BlockLookup::Data { water, data } => {
                lemma_filtered_block_is_near(data, 0, query.block_query(row, column));
            },
            _ => {},
        }
        match query.visit(progress, row, column) {
            Ok(next) => {
                lemma_columns_near(query, next, row, column + 1);
            },
            Err(_) => {},
        }
    }
}

proof fn lemma_rows_near(query: Query, progress: Progress, row: int)
    requires
        query.parameters.query_zoom_level > query.sub_file.base_zoom_level,
        progress_near(progress, query),
    ensures
        query.rows(progress, row) matches Ok(next) ==> progress_near(next, query),
    decreases query.parameters.to_block_y - row + 1,
{
    if row <= query.parameters.to_block_y {
        lemma_columns_near(query, progress, row, query.parameters.from_block_x as int);
        match query.columns(progress, row, query.parameters.from_block_x as int) {
            Ok(next) => {
                lemma_rows_near(query, next, row + 1);
            },
            Err(_) => {},
        }
    }
}

/// A query that is answered above the base zoom level of its sub-file
/// returns only points in the box of the queried tiles and, where the map
/// file filters ways, only ways with a node in that box grown by the way
/// filter distance.
pub proof fn lemma_filtered_features_are_near(query: Query)
    requires
        query.parameters.query_zoom_level > query.sub_file.base_zoom_level,
    ensures
        query.answer() matches Ok(answer) ==> progress_near(
            Progress { bundles: answer.poi_way_bundles, all_water: true, any_seen: true },
            query,
        ),
{
    lemma_rows_near(query, Progress::start(), query.parameters.from_block_y as int);
}

/// The block in a row and a column of the sub-file has data to decode.
pub open spec fn block_has_data(query: Query, row: int, column: int) -> bool {
    spec_block_lookup(
        query.map.file,
        query.sub_file,
        row * query.sub_file.blocks_width + column,
    ) is Data
}

/// No block of the plan has data to decode.
pub open spec fn plan_without_data(query: Query) -> bool {
    forall|row: int, column: int|
        query.parameters.from_block_y <= row <= query.parameters.to_block_y
            && query.parameters.from_block_x <= column <= query.parameters.to_block_x
            ==> !#[trigger] block_has_data(query, row, column)
}

proof fn lemma_columns_without_data(query: Query, progress: Progress, row: int, column: int)
    requires
        plan_without_data(query),
        query.parameters.from_block_y <= row <= query.parameters.to_block_y,
        query.parameters.from_block_x <= column,
        progress.bundles.len() == 0,
    ensures
        query.columns(progress, row, column) matches Ok(next) && next.bundles.len() == 0,
    decreases query.parameters.to_block_x - column + 1,
{
    if column <= query.parameters.to_block_x {
        assert(!block_has_data(query, row, column));
        lemma_columns_without_data(
            query,
            query.visit(progress, row, column)->Ok_0,
            row,
            column + 1,
        );
    }
}

proof fn lemma_rows_without_data(query: Query, progress: Progress, row: int)
    requires
        plan_without_data(query),
        query.parameters.from_block_y <= row,
        progress.bundles.len() == 0,
    ensures
        query.rows(progress, row) matches Ok(next) && next.bundles.len() == 0,
    decreases query.parameters.to_block_y - row + 1,
{
    if row <= query.parameters.to_block_y {
        lemma_columns_without_data(query, progress, row, query.parameters.from_block_x as int);
        lemma_rows_without_data(
            query,
            query.columns(progress, row, query.parameters.from_block_x as int)->Ok_0,
            row + 1,
        );
    }
}

/// A query over an empty map returns an empty result: where no block of
/// the plan has data to decode, the query succeeds with no bundle, whatever
/// its zoom level and its selector are.
pub proof fn lemma_query_without_data_is_empty(query: Query)
    requires
        plan_without_data(query),
        query.grid.is_valid(),
        query.grid.covers(query.parameters),
    ensures
        query.answer() matches Ok(answer) && answer.poi_way_bundles.len() == 0,
{
    lemma_rows_without_data(query, Progress::start(), query.parameters.from_block_y as int);
}

/// The node before the node at `index`: the tile's corner before the first.
pub open spec fn node_before(origin: LatLong, nodes: Seq<LatLong>, index: int) -> LatLong {
    if index <= 0 {
        origin
    } else {
        nodes[index - 1]
    }
}

/// The step that leads to the node at `index` from the node before it.
pub open spec fn step_to(origin: LatLong, nodes: Seq<LatLong>, index: int) -> Offset {
    (
        nodes[index].latitude - node_before(origin, nodes, index).latitude,
        nodes[index].longitude - node_before(origin, nodes, index).longitude,
    )
}

/// The offsets that write a ring in single-delta encoding: the steps.
pub open spec fn single_delta_offsets(origin: LatLong, nodes: Seq<LatLong>) -> Seq<Offset> {
    Seq::new(nodes.len(), |index: int| step_to(origin, nodes, index))
}

/// The offsets that write a ring in double-delta encoding: the first two
/// steps, and from the third node on the change of the step.
pub open spec fn double_delta_offsets(origin: LatLong, nodes: Seq<LatLong>) -> Seq<Offset> {
    Seq::new(
        nodes.len(),
        |index: int|
            if index <= 1 {
                step_to(origin, nodes, index)
            } else {
                (
                    step_to(origin, nodes, index).0 - step_to(origin, nodes, index - 1).0,
                    step_to(origin, nodes, index).1 - step_to(origin, nodes, index - 1).1,
                )
            },
    )
}

/// No longitude lies so little beyond the date line that reading would
/// move it.
pub open spec fn clear_of_date_line(nodes: Seq<LatLong>) -> bool {
    forall|index: int|
        0 <= index < nodes.len() ==> LatLongUtils::spec_snap_longitude(
            (#[trigger] nodes[index]).longitude as int,
        ) == nodes[index].longitude
}

proof fn lemma_single_delta_round_trip(origin: LatLong, nodes: Seq<LatLong>)
    requires
        clear_of_date_line(nodes),
    ensures
        single_delta_nodes(origin, single_delta_offsets(origin, nodes)) == nodes,
    decreases nodes.len(),
{
    let offsets = single_delta_offsets(origin, nodes);
    if nodes.len() == 0 {
        assert(single_delta_nodes(origin, offsets) =~= nodes);
    } else {
        let shorter = nodes.drop_last();
        assert(offsets.drop_last() =~= single_delta_offsets(origin, shorter));
        lemma_single_delta_round_trip(origin, shorter);
        let last = nodes.len() - 1;
        assert(last_or(shorter, origin) == node_before(origin, nodes, last));
        assert(node_after(node_before(origin, nodes, last), offsets[last]) == nodes[last]);
        assert(single_delta_nodes(origin, offsets) =~= nodes);
    }
}

proof fn lemma_double_deltas_sum_to_steps(origin: LatLong, nodes: Seq<LatLong>, index: int)
    requires
        1 <= index < nodes.len(),
    ensures
        offset_sum(double_delta_offsets(origin, nodes).subrange(1, index + 1)) == step_to(
            origin,
            nodes,
            index,
        ),
    decreases index,
{
    let offsets = double_delta_offsets(origin, nodes);
    let part = offsets.subrange(1, index + 1);
    assert(part.drop_last() =~= offsets.subrange(1, index));
    assert(part.last() == offsets[index]);
    let before = offset_sum(offsets.subrange(1, index));
    assert(offset_sum(part) == (before.0 + offsets[index].0, before.1 + offsets[index].1));
    if index == 1 {
        assert(offsets.subrange(1, 1) =~= Seq::<Offset>::empty());
        assert(before == (0int, 0int));
    } else {
        lemma_double_deltas_sum_to_steps(origin, nodes, index - 1);
        assert(before == step_to(origin, nodes, index - 1));
    }
    let step = step_to(origin, nodes, index);
    assert(offset_sum(part).0 == step.0);
    assert(offset_sum(part).1 == step.1);
}

/// Both encodings of a ring are read back as the ring: the offsets that
/// write its nodes in single-delta encoding and those that write them in
/// double-delta encoding give the same nodes, the ring's own, where no
/// longitude lies in the reach of the date line's correction.
pub proof fn lemma_both_encodings_give_the_ring(origin: LatLong, nodes: Seq<LatLong>)
    requires
        clear_of_date_line(nodes),
    ensures
        single_delta_nodes(origin, single_delta_offsets(origin, nodes)) == nodes,
        double_delta_nodes(origin, double_delta_offsets(origin, nodes)) == nodes,
{
    lemma_single_delta_round_trip(origin, nodes);
    let single = single_delta_offsets(origin, nodes);
    let double = double_delta_offsets(origin, nodes);
    assert forall|k: int| 1 <= k < single.len() implies #[trigger] single[k] == offset_sum(
        double.subrange(1, k + 1),
    ) by {
        lemma_double_deltas_sum_to_steps(origin, nodes, k);
    }
    lemma_single_and_double_delta_agree(origin, single, double);
}

/// The bytes that write pairs of offsets: for each pair the offset of
/// latitude and then that of longitude, as signed variable-byte integers.
pub open spec fn encode_offsets(offsets: Seq<Offset>) -> Seq<u8>
    decreases offsets.len(),
{
    if offsets.len() == 0 {
        Seq::empty()
    } else {
        encode_signed(offsets[0].0) + encode_signed(offsets[0].1) + encode_offsets(
            offsets.drop_first(),
        )
    }
}

/// Every offset can be written: it is a signed 32-bit number, and not the
/// least.
pub open spec fn offsets_fit(offsets: Seq<Offset>) -> bool {
    forall|index: int|
        0 <= index < offsets.len() ==> i32::MIN < (#[trigger] offsets[index]).0 <= i32::MAX
            && i32::MIN < offsets[index].1 <= i32::MAX
}

proof fn lemma_prefix_splits(data: Seq<u8>, pos: int, first: Seq<u8>, rest: Seq<u8>)
    requires
        has_prefix(data, pos, first + rest),
    ensures
        has_prefix(data, pos, first),
        has_prefix(data, pos + first.len(), rest),
{
    let whole = first + rest;
    assert(data.subrange(pos, pos + first.len()) =~= data.subrange(
        pos,
        pos + whole.len(),
    ).subrange(0, first.len() as int));
    assert(whole.subrange(0, first.len() as int) =~= first);
    assert(data.subrange(pos + first.len(), pos + first.len() + rest.len()) =~= data.subrange(
        pos,
        pos + whole.len(),
    ).subrange(first.len() as int, whole.len() as int));
    assert(whole.subrange(first.len() as int, whole.len() as int) =~= rest);
}

/// Offsets are read back from the bytes that write them.
pub proof fn lemma_offsets_round_trip(data: Seq<u8>, pos: int, offsets: Seq<Offset>)
    requires
        offsets_fit(offsets),
        has_prefix(data, pos, encode_offsets(offsets)),
    ensures
        spec_offsets(data, pos, offsets.len()) == Ok::<(Seq<Offset>, int), MapFileException>(
            (offsets, pos + encode_offsets(offsets).len()),
        ),
    decreases offsets.len(),
{
    if offsets.len() == 0 {
        assert(offsets =~= Seq::<Offset>::empty());
    } else {
        let latitude = encode_signed(offsets[0].0);
        let longitude = encode_signed(offsets[0].1);
        let rest = offsets.drop_first();
        let tail = encode_offsets(rest);
        assert(encode_offsets(offsets) == latitude + longitude + tail);
        lemma_prefix_splits(data, pos, latitude + longitude, tail);
        lemma_prefix_splits(data, pos, latitude, longitude);
        lemma_signed_round_trip(data, pos, offsets[0].0 as i32);
        lemma_signed_round_trip(data, pos + latitude.len(), offsets[0].1 as i32);
        assert(offsets_fit(rest)) by {
            assert forall|index: int| 0 <= index < rest.len() implies i32::MIN < (
            #[trigger] rest[index]).0 <= i32::MAX && i32::MIN < rest[index].1 <= i32::MAX by {
                assert(rest[index] == offsets[index + 1]);
            }
        }
        lemma_offsets_round_trip(data, pos + latitude.len() + longitude.len(), rest);
        assert(seq![offsets[0]] + rest =~= offsets);
        assert(spec_read_signed_int(data, pos) == Ok::<(i32, int), MapFileException>(
            (offsets[0].0 as i32, pos + latitude.len()),
        ));
    }
}

/// A ring is read back from its bytes in either encoding: where `data`
/// holds at `pos` the offsets that write the nodes in single-delta encoding,
/// reading a single-delta ring there gives the nodes, and likewise for the
/// double-delta encoding; so both encodings of one ring are read as the same
/// nodes. The offsets must fit their integers, and no longitude may lie in
/// the reach of the date line's correction.
pub proof fn lemma_ring_round_trip(
    data: Seq<u8>,
    pos: int,
    origin: LatLong,
    nodes: Seq<LatLong>,
    double_delta: bool,
)
    requires
        clear_of_date_line(nodes),
        offsets_fit(
            if double_delta {
                double_delta_offsets(origin, nodes)
            } else {
                single_delta_offsets(origin, nodes)
            },
        ),
        has_prefix(
            data,
            pos,
            encode_offsets(
                if double_delta {
                    double_delta_offsets(origin, nodes)
                } else {
                    single_delta_offsets(origin, nodes)
                },
            ),
        ),
    ensures
        spec_ring(data, pos, nodes.len(), origin, double_delta) matches Ok((found, _)) && found
            == nodes,
{
    let offsets = if double_delta {
        double_delta_offsets(origin, nodes)
    } else {
        single_delta_offsets(origin, nodes)
    };
    lemma_offsets_round_trip(data, pos, offsets);
    lemma_both_encodings_give_the_ring(origin, nodes);
}

/// A query for tiles above the largest zoom level that the file serves is
/// answered at that level, one for tiles below the least at the least, and
/// every other at the zoom level of its tiles, as long as the map file was
/// not told to restrict the zoom levels.
pub proof fn lemma_query_zoom_level_is_served(map: MapFileView, upper_left: Tile, lower_right: Tile)
    requires
        map.zoom_level_min == 0,
        map.zoom_level_max == 255,
        map.plan(upper_left, lower_right) is Ok,
    ensures
        ({
            let answered = map.plan(upper_left, lower_right)->Ok_0.0.query_zoom_level;
            if upper_left.zoom_level > map.header.zoom_level_maximum {
                answered == map.header.zoom_level_maximum
            } else if upper_left.zoom_level < map.header.zoom_level_minimum {
                answered == map.header.zoom_level_minimum
            } else {
                answered == upper_left.zoom_level
            }
        }),
{
}

} // verus!
