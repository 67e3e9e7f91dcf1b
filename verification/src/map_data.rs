//! What a query returns.

use crate::types::{tags_view, LatLong, Tag, TagView};
use vstd::prelude::*;

verus! {

/// What a `PointOfInterest` holds.
pub struct PoiView {
    pub layer: int,
    pub tags: Seq<TagView>,
    pub position: LatLong,
}

/// A point with a layer and tags.
#[derive(Debug)]
pub struct PointOfInterest {
    pub layer: i8,
    pub tags: Vec<Tag>,
    pub position: LatLong,
}

impl View for PointOfInterest {
    type V = PoiView;

    open spec fn view(&self) -> PoiView {
        PoiView { layer: self.layer as int, tags: tags_view(self.tags@), position: self.position }
    }
}

impl PointOfInterest {
    pub fn new(layer: i8, tags: Vec<Tag>, position: LatLong) -> (poi: Self)
        ensures
            poi@ == (PoiView { layer: layer as int, tags: tags_view(tags@), position }),
    {
        PointOfInterest { layer, tags, position }
    }
}

/// What a `Way` holds.
pub struct WayView {
    pub layer: int,
    pub tags: Seq<TagView>,
    pub way_nodes: Seq<Seq<LatLong>>,
    pub label_position: Option<LatLong>,
}

/// The rings of a way as sequences.
pub open spec fn rings_view(rings: Seq<Vec<LatLong>>) -> Seq<Seq<LatLong>> {
    Seq::new(rings.len(), |i: int| rings[i]@)
}

/// A line or an area: a layer, tags, one or more rings of nodes, and where
/// its label goes if the file says so.
#[derive(Debug)]
pub struct Way {
    pub layer: i8,
    pub tags: Vec<Tag>,
    pub way_nodes: Vec<Vec<LatLong>>,
    pub label_position: Option<LatLong>,
}

impl View for Way {
    type V = WayView;

    open spec fn view(&self) -> WayView {
        WayView {
            layer: self.layer as int,
            tags: tags_view(self.tags@),
            way_nodes: rings_view(self.way_nodes@),
            label_position: self.label_position,
        }
    }
}

impl Way {
    pub fn new(
        layer: i8,
        tags: Vec<Tag>,
        way_nodes: Vec<Vec<LatLong>>,
        label_position: Option<LatLong>,
    ) -> (way: Self)
        ensures
            way@ == (WayView {
                layer: layer as int,
                tags: tags_view(tags@),
                way_nodes: rings_view(way_nodes@),
                label_position,
            }),
    {
        Way { layer, tags, way_nodes, label_position }
    }
}

/// What a `PoiWayBundle` holds.
pub struct BundleView {
    pub pois: Seq<PoiView>,
    pub ways: Seq<WayView>,
}

/// What a list of points holds.
pub open spec fn pois_view(pois: Seq<PointOfInterest>) -> Seq<PoiView> {
    Seq::new(pois.len(), |i: int| pois[i]@)
}

/// What a list of ways holds.
pub open spec fn ways_view(ways: Seq<Way>) -> Seq<WayView> {
    Seq::new(ways.len(), |i: int| ways[i]@)
}

/// The points and ways of one block.
#[derive(Debug)]
pub struct PoiWayBundle {
    pub pois: Vec<PointOfInterest>,
    pub ways: Vec<Way>,
}

impl View for PoiWayBundle {
    type V = BundleView;

    open spec fn view(&self) -> BundleView {
        BundleView { pois: pois_view(self.pois@), ways: ways_view(self.ways@) }
    }
}

impl PoiWayBundle {
    pub fn new(pois: Vec<PointOfInterest>, ways: Vec<Way>) -> (bundle: Self)
        ensures
            bundle@ == (BundleView { pois: pois_view(pois@), ways: ways_view(ways@) }),
    {
        PoiWayBundle { pois, ways }
    }
}

/// What a `MapReadResult` holds.
pub struct ResultView {
    pub poi_way_bundles: Seq<BundleView>,
    pub is_water: bool,
}

/// What a list of bundles holds.
pub open spec fn bundles_view(bundles: Seq<PoiWayBundle>) -> Seq<BundleView> {
    Seq::new(bundles.len(), |i: int| bundles[i]@)
}

/// The answer to a query: one bundle for each block that was decoded, and
/// whether all of the area is water.
#[derive(Debug)]
pub struct MapReadResult {
    pub poi_way_bundles: Vec<PoiWayBundle>,
    pub is_water: bool,
}

impl View for MapReadResult {
    type V = ResultView;

    open spec fn view(&self) -> ResultView {
        ResultView {
            poi_way_bundles: bundles_view(self.poi_way_bundles@),
            is_water: self.is_water,
        }
    }
}

impl MapReadResult {
    /// The answer without bundles, which is not water.
    pub fn new() -> (result: Self)
        ensures
            result@ == (ResultView { poi_way_bundles: Seq::empty(), is_water: false }),
    {
        let result = MapReadResult { poi_way_bundles: Vec::new(), is_water: false };
        assert(bundles_view(result.poi_way_bundles@) =~= Seq::empty());
        result
    }

    /// Appends a bundle.
    pub fn add(&mut self, bundle: PoiWayBundle)
        ensures
            final(self)@ == (ResultView {
                poi_way_bundles: old(self)@.poi_way_bundles.push(bundle@),
                is_water: old(self)@.is_water,
            }),
    {
        self.poi_way_bundles.push(bundle);
        assert(bundles_view(self.poi_way_bundles@) =~= bundles_view(
            old(self).poi_way_bundles@,
        ).push(bundle@));
    }
}

} // verus!
