//! Positions, bounding boxes and tags.

use crate::errors::{ErrorKind, MapFileException};
use vstd::prelude::*;

verus! {

/// A position in whole micro-degrees.
#[derive(Debug, Clone, Copy, PartialEq, Eq, Structural)]
pub struct LatLong {
    pub latitude: i64,
    pub longitude: i64,
}

impl LatLong {
    pub fn new(latitude: i64, longitude: i64) -> (position: Self)
        ensures
            position.latitude == latitude,
            position.longitude == longitude,
    {
        LatLong { latitude, longitude }
    }
}

/// Half of `sum`, rounded toward zero.
pub open spec fn half_toward_zero(sum: int) -> int {
    if sum >= 0 {
        sum / 2
    } else {
        -((-sum) / 2)
    }
}

/// The width in micro-degrees that stands for `meters` metres, at a flat
/// 111 000 metres per degree, rounded toward zero.
pub open spec fn meters_to_microdegrees(meters: int) -> int {
    if meters >= 0 {
        meters * 1000 / 111
    } else {
        -((-meters) * 1000 / 111)
    }
}

/// `value` held to the range of a 64-bit signed integer.
pub open spec fn saturate(value: int) -> int {
    if value > i64::MAX {
        i64::MAX as int
    } else if value < i64::MIN {
        i64::MIN as int
    } else {
        value
    }
}

fn saturating_sum(a: i64, b: i64) -> (sum: i64)
    ensures
        sum == saturate(a + b),
{
    match a.checked_add(b) {
        Some(sum) => sum,
        None => if b > 0 {
            i64::MAX
        } else {
            i64::MIN
        },
    }
}

/// A rectangle in whole micro-degrees. A box made by `new` has its minimum
/// at or below its maximum on each axis.
#[derive(Debug, Clone, Copy, PartialEq, Eq, Structural)]
pub struct BoundingBox {
    pub min_latitude: i64,
    pub min_longitude: i64,
    pub max_latitude: i64,
    pub max_longitude: i64,
}

impl BoundingBox {
    /// The minimum is at or below the maximum on each axis.
    pub open spec fn is_valid(&self) -> bool {
        self.min_latitude <= self.max_latitude && self.min_longitude <= self.max_longitude
    }

    /// The position lies in the box or on its edge.
    pub open spec fn spec_contains(&self, latitude: int, longitude: int) -> bool {
        self.min_latitude <= latitude <= self.max_latitude && self.min_longitude <= longitude
            <= self.max_longitude
    }

    /// The boxes share a point.
    pub open spec fn spec_intersects(&self, other: BoundingBox) -> bool {
        other.min_latitude <= self.max_latitude && other.max_latitude >= self.min_latitude
            && other.min_longitude <= self.max_longitude && other.max_longitude
            >= self.min_longitude
    }

    /// The box grown by `delta` on every side; a side that would leave the
    /// 64-bit range stops at its end.
    pub open spec fn spec_extend(&self, delta: int) -> BoundingBox {
        BoundingBox {
            min_latitude: saturate(self.min_latitude - delta) as i64,
            min_longitude: saturate(self.min_longitude - delta) as i64,
            max_latitude: saturate(self.max_latitude + delta) as i64,
            max_longitude: saturate(self.max_longitude + delta) as i64,
        }
    }

    /// Builds the box, or fails with `InvalidRange` where a minimum lies
    /// above its maximum.
    pub fn new(min_latitude: i64, min_longitude: i64, max_latitude: i64, max_longitude: i64) -> (r:
        Result<Self, MapFileException>)
        ensures
            (min_latitude > max_latitude || min_longitude > max_longitude) ==> r == Err::<
                Self,
                MapFileException,
            >(MapFileException::of(ErrorKind::InvalidRange)),
            (min_latitude <= max_latitude && min_longitude <= max_longitude) ==> r == Ok::<
                Self,
                MapFileException,
            >(BoundingBox { min_latitude, min_longitude, max_latitude, max_longitude }),
    {
        if min_latitude > max_latitude || min_longitude > max_longitude {
            return Err(MapFileException::new(ErrorKind::InvalidRange, 0));
        }
        Ok(BoundingBox { min_latitude, min_longitude, max_latitude, max_longitude })
    }

    /// The middle of the box, each coordinate rounded toward zero.
    pub fn get_center_point(&self) -> (center: LatLong)
        ensures
            center.latitude == half_toward_zero(self.min_latitude + self.max_latitude),
            center.longitude == half_toward_zero(self.min_longitude + self.max_longitude),
    {
        LatLong {
            latitude: half_of_sum(self.min_latitude, self.max_latitude),
            longitude: half_of_sum(self.min_longitude, self.max_longitude),
        }
    }

    /// Whether the position lies in the box or on its edge.
    pub fn contains(&self, latitude: i64, longitude: i64) -> (inside: bool)
        ensures
            inside == self.spec_contains(latitude as int, longitude as int),
    {
        latitude >= self.min_latitude && latitude <= self.max_latitude && longitude
            >= self.min_longitude && longitude <= self.max_longitude
    }

    /// Whether the boxes share a point.
    pub fn intersects(&self, other: &BoundingBox) -> (overlap: bool)
        ensures
            overlap == self.spec_intersects(*other),
    {
        !(other.min_latitude > self.max_latitude || other.max_latitude < self.min_latitude
            || other.min_longitude > self.max_longitude || other.max_longitude
            < self.min_longitude)
    }

    /// The box grown on every side by the width that stands for `meters`
    /// metres; a side that would leave the 64-bit range stops at its end.
    pub fn extend_meters(&self, meters: i32) -> (extended: BoundingBox)
        ensures
            extended == self.spec_extend(meters_to_microdegrees(meters as int)),
            self.is_valid() && meters >= 0 ==> extended.is_valid(),
    {
        let scaled: i64 = meters as i64 * 1000;
        let delta: i64 = if scaled >= 0 {
            scaled / 111
        } else {
            -((-scaled) / 111)
        };
        let negated: i64 = -delta;
        BoundingBox {
            min_latitude: saturating_sum(self.min_latitude, negated),
            min_longitude: saturating_sum(self.min_longitude, negated),
            max_latitude: saturating_sum(self.max_latitude, delta),
            max_longitude: saturating_sum(self.max_longitude, delta),
        }
    }
}

fn half_of_sum(a: i64, b: i64) -> (half: i64)
    ensures
        half == half_toward_zero(a + b),
{
    let sum: i128 = a as i128 + b as i128;
    if sum >= 0 {
        (sum / 2) as i64
    } else {
        (-((-sum) / 2)) as i64
    }
}

/// What a `Tag` holds, as two sequences of characters.
pub struct TagView {
    pub key: Seq<char>,
    pub value: Seq<char>,
}

/// A key and a value.
#[derive(Debug)]
pub struct Tag {
    pub key: String,
    pub value: String,
}

impl View for Tag {
    type V = TagView;

    open spec fn view(&self) -> TagView {
        TagView { key: self.key@, value: self.value@ }
    }
}

impl Clone for Tag {
    fn clone(&self) -> (copy: Self)
        ensures
            copy@ == self@,
    {
        Tag { key: self.key.clone(), value: self.value.clone() }
    }
}

impl Tag {
    pub fn new(key: String, value: String) -> (tag: Self)
        ensures
            tag@ == (TagView { key: key@, value: value@ }),
    {
        Tag { key, value }
    }

    /// The tag whose key and value are both the given text, as a tag
    /// dictionary stores an entry.
    pub fn from_string(tag: String) -> (entry: Self)
        ensures
            entry@ == (TagView { key: tag@, value: tag@ }),
    {
        Tag { key: tag.clone(), value: tag }
    }
}

/// What a list of tags holds.
pub open spec fn tags_view(tags: Seq<Tag>) -> Seq<TagView> {
    Seq::new(tags.len(), |i: int| tags[i]@)
}

/// Limits of the longitude axis, in micro-degrees.
pub struct LatLongUtils;

impl LatLongUtils {
    /// The date line in the east, in micro-degrees.
    pub const LONGITUDE_MAX: i64 = 180_000_000;

    /// The date line in the west, in micro-degrees.
    pub const LONGITUDE_MIN: i64 = -180_000_000;

    /// How close to a limit, in micro-degrees, a longitude beyond it is
    /// taken to mean the limit itself.
    pub const DATE_LINE_TOLERANCE: i64 = 1000;

    /// A longitude less than the tolerance beyond a limit becomes that
    /// limit; every other longitude stays.
    pub open spec fn spec_snap_longitude(longitude: int) -> int {
        if -180_001_000 < longitude < -180_000_000 {
            -180_000_000
        } else if 180_000_000 < longitude < 180_001_000 {
            180_000_000
        } else {
            longitude
        }
    }

    /// The longitude, or the date line where the longitude lies less than the
    /// tolerance beyond it.
    pub fn snap_longitude(longitude: i64) -> (snapped: i64)
        ensures
            snapped == Self::spec_snap_longitude(longitude as int),
    {
        if longitude < Self::LONGITUDE_MIN && Self::LONGITUDE_MIN - Self::DATE_LINE_TOLERANCE
            < longitude {
            Self::LONGITUDE_MIN
        } else if longitude > Self::LONGITUDE_MAX && longitude < Self::LONGITUDE_MAX
            + Self::DATE_LINE_TOLERANCE {
            Self::LONGITUDE_MAX
        } else {
            longitude
        }
    }
}

} // verus!
