//! Locations, panoramas and map tiles.

use vstd::prelude::*;
use crate::math::angle::Angle;
use crate::math::is_at_least_within_radius;
use crate::math::underestimate_sqr;
use vstd::std_specs::cmp::PartialEqSpecImpl;
use vstd::std_specs::convert::FromSpecImpl;

verus! {

/// A point on the globe: latitude and longitude as fixed-point angles.
#[derive(Clone, Copy, Debug, PartialEq, Eq, Hash, Structural)]
pub struct Location {
    /// y
    pub lat: Angle,
    /// x
    pub lng: Angle,
}

impl Location {
    /// The point at latitude `lat` and longitude `lng`.
    pub fn new(lat: Angle, lng: Angle) -> (loc: Location)
        ensures
            loc == (Location { lat, lng }),
    {
        Location { lat, lng }
    }

    /// The same longitude at another latitude.
    pub fn with_lat(self, lat: Angle) -> (loc: Location)
        ensures
            loc == (Location { lat, lng: self.lng }),
    {
        Location { lat, lng: self.lng }
    }

    /// The same latitude at another longitude.
    pub fn with_lng(self, lng: Angle) -> (loc: Location)
        ensures
            loc == (Location { lat: self.lat, lng }),
    {
        Location { lat: self.lat, lng }
    }
}

/// The interned handle of a panorama. The top bit is set for a third-party
/// panorama; the low 31 bits are the value of the counter at interning.
#[derive(Clone, Copy, Debug, PartialEq, Eq, Hash, Structural)]
pub struct PanoId(pub u32);

impl PanoId {
    /// The top bit is set.
    pub open spec fn photosphere(self) -> bool {
        self.0 >= 0x8000_0000
    }

    /// Whether the panorama is a third-party one.
    pub fn is_photosphere(&self) -> (r: bool)
        ensures
            r == self.photosphere(),
    {
        let bits: u32 = self.0;
        assert((bits >> 31u32) == 1u32 <==> bits >= 0x8000_0000u32) by (bit_vector);
        (bits >> 31) == 1
    }
}

/// The identifier of a panorama as the provider writes it.
#[derive(Clone, Debug, PartialEq, Eq, Hash)]
pub struct ApiPanoId(pub String);

/// A panorama with its location. Two panoramas are equal when their ids are;
/// the location is informational.
#[derive(Clone, Copy, Debug)]
pub struct Pano {
    pub id: PanoId,
    pub loc: Location,
}

impl PartialEq for Pano {
    fn eq(&self, other: &Self) -> (r: bool) {
        self.id == other.id
    }
}

impl Eq for Pano {

}

impl PartialEqSpecImpl for Pano {
    open spec fn obeys_eq_spec() -> bool {
        true
    }

    open spec fn eq_spec(&self, other: &Self) -> bool {
        self.id == other.id
    }
}

/// A panorama with the location that spatial queries match it by and the
/// location where it truly is. Equality is that of the ids.
#[derive(Clone, Copy, Debug)]
pub struct PanoWithBothLocations {
    pub id: PanoId,
    pub search_loc: Location,
    pub actual_loc: Location,
}

impl PartialEq for PanoWithBothLocations {
    fn eq(&self, other: &Self) -> (r: bool) {
        self.id == other.id
    }
}

impl Eq for PanoWithBothLocations {

}

impl PartialEqSpecImpl for PanoWithBothLocations {
    open spec fn obeys_eq_spec() -> bool {
        true
    }

    open spec fn eq_spec(&self, other: &Self) -> bool {
        self.id == other.id
    }
}

/// A panorama as the provider lists it, before its id is interned.
#[derive(Clone, Debug, PartialEq)]
pub struct ApiPano {
    pub id: ApiPanoId,
    pub loc: Location,
}

/// A published link from one panorama to another.
#[derive(Clone, Copy, Debug)]
pub struct PanoLink {
    /// The linked panorama at its true location.
    pub pano: Pano,
    /// The bearing toward the linked panorama in degrees, as the bits of an
    /// IEEE 754 single, which is how it is stored.
    pub heading: u32,
}

/// The metadata of one panorama: its true location and its links.
#[derive(Clone, Debug)]
pub struct GetMetadataResponse {
    pub id: PanoId,
    pub loc: Location,
    pub links: Vec<PanoLink>,
}

/// A panorama with the tile it lies in.
#[derive(Clone, Copy, Debug)]
pub struct PanoWithTile {
    pub id: PanoId,
    pub tile: SmallTile,
}

/// The zoom of the finest tiles.
pub const SMALL_TILE_SIZE: u8 = 16;

/// The zoom of the coarsest tiles in use.
pub const LARGEST_TILE_SIZE: u8 = 13;

/// A Web-Mercator tile at the finest zoom.
#[derive(Clone, Copy, Debug, PartialEq, Eq, Hash, Structural)]
pub struct SmallTile {
    /// lng
    pub x: u32,
    /// lat
    pub y: u32,
}

/// A Web-Mercator tile at zoom `size`.
#[derive(Clone, Copy, Debug, PartialEq, Eq, Hash, Structural)]
pub struct SizedTile {
    pub size: u8,
    /// lng
    pub x: u32,
    /// lat
    pub y: u32,
}

/// The box of latitudes and longitudes that a tile covers.
#[derive(Clone, Copy, Debug, PartialEq, Eq, Structural)]
pub struct TileBounds {
    pub min: Location,
    pub max: Location,
}

pub open spec fn lower(a: Angle, b: Angle) -> Angle {
    if a.0 <= b.0 {
        a
    } else {
        b
    }
}

pub open spec fn upper(a: Angle, b: Angle) -> Angle {
    if a.0 <= b.0 {
        b
    } else {
        a
    }
}

pub open spec fn clamped(v: Angle, min: Angle, max: Angle) -> Angle {
    if v.0 < min.0 {
        min
    } else if v.0 > max.0 {
        max
    } else {
        v
    }
}

fn angle_min(a: Angle, b: Angle) -> (r: Angle)
    ensures
        r == lower(a, b),
{
    if a.0 <= b.0 {
        a
    } else {
        b
    }
}

fn angle_max(a: Angle, b: Angle) -> (r: Angle)
    ensures
        r == upper(a, b),
{
    if a.0 <= b.0 {
        b
    } else {
        a
    }
}

fn angle_clamp(v: Angle, min: Angle, max: Angle) -> (r: Angle)
    ensures
        r == clamped(v, min, max),
{
    if v.0 < min.0 {
        min
    } else if v.0 > max.0 {
        max
    } else {
        v
    }
}

impl TileBounds {
    /// The least box that holds both `a` and `b`.
    pub open spec fn spanning(a: Location, b: Location) -> TileBounds {
        TileBounds {
            min: Location { lat: lower(a.lat, b.lat), lng: lower(a.lng, b.lng) },
            max: Location { lat: upper(a.lat, b.lat), lng: upper(a.lng, b.lng) },
        }
    }

    /// `loc` lies in the box, borders included.
    pub open spec fn contains(self, loc: Location) -> bool {
        &&& self.min.lat.0 <= loc.lat.0 <= self.max.lat.0
        &&& self.min.lng.0 <= loc.lng.0 <= self.max.lng.0
    }

    /// The point of the box nearest to `loc`, component by component.
    pub open spec fn nearest(self, loc: Location) -> Location {
        Location {
            lat: clamped(loc.lat, self.min.lat, self.max.lat),
            lng: clamped(loc.lng, self.min.lng, self.max.lng),
        }
    }

    /// The box with two opposite corners, given in either order.
    pub fn from_corners(a: Location, b: Location) -> (bounds: TileBounds)
        ensures
            bounds == Self::spanning(a, b),
    {
        TileBounds {
            min: Location { lat: angle_min(a.lat, b.lat), lng: angle_min(a.lng, b.lng) },
            max: Location { lat: angle_max(a.lat, b.lat), lng: angle_max(a.lng, b.lng) },
        }
    }

    /// Whether `loc` lies in the box, borders included.
    pub fn includes(&self, loc: Location) -> (r: bool)
        ensures
            r == self.contains(loc),
    {
        loc.lat.0 >= self.min.lat.0 && loc.lat.0 <= self.max.lat.0 && loc.lng.0 >= self.min.lng.0
            && loc.lng.0 <= self.max.lng.0
    }
}

impl SmallTile {
    /// The tile at any zoom up to the finest that covers this one.
    pub open spec fn covering(self, size: u8) -> SizedTile
        recommends
            13 <= size <= 16,
    {
        if size == 16 {
            SizedTile { size, x: self.x, y: self.y }
        } else if size == 15 {
            SizedTile { size, x: self.x / 2, y: self.y / 2 }
        } else if size == 14 {
            SizedTile { size, x: self.x / 4, y: self.y / 4 }
        } else {
            SizedTile { size, x: self.x / 8, y: self.y / 8 }
        }
    }

    /// Whether a point within `radius` of `loc` may lie in the tile, whose
    /// box is `bounds`. A location inside the box always may; one outside may
    /// when the lower estimate of its distance to the nearest point of the
    /// box is within the radius. A `false` is never wrong.
    pub fn is_maybe_within_radius(
        &self,
        bounds: &TileBounds,
        loc: Location,
        radius: u64,
        approx_lng_mm_per_degree: u32,
    ) -> (r: bool)
        ensures
            r == (bounds.contains(loc) || underestimate_sqr(
                loc,
                bounds.nearest(loc),
                approx_lng_mm_per_degree as int,
            ) <= radius * radius),
    {
        if bounds.includes(loc) {
            return true;
        }
        let closest = Location {
            lat: angle_clamp(loc.lat, bounds.min.lat, bounds.max.lat),
            lng: angle_clamp(loc.lng, bounds.min.lng, bounds.max.lng),
        };
        is_at_least_within_radius(loc, closest, radius, approx_lng_mm_per_degree)
    }

    /// The tile below.
    pub fn down(&self) -> (t: SmallTile)
        requires
            self.y < u32::MAX,
        ensures
            t == (SmallTile { x: self.x, y: (self.y + 1) as u32 }),
    {
        SmallTile { x: self.x, y: self.y + 1 }
    }

    /// The tile above.
    pub fn up(&self) -> (t: SmallTile)
        requires
            self.y > 0,
        ensures
            t == (SmallTile { x: self.x, y: (self.y - 1) as u32 }),
    {
        SmallTile { x: self.x, y: self.y - 1 }
    }

    /// The tile to the left.
    pub fn left(&self) -> (t: SmallTile)
        requires
            self.x > 0,
        ensures
            t == (SmallTile { x: (self.x - 1) as u32, y: self.y }),
    {
        SmallTile { x: self.x - 1, y: self.y }
    }

    /// The tile to the right.
    pub fn right(&self) -> (t: SmallTile)
        requires
            self.x < u32::MAX,
        ensures
            t == (SmallTile { x: (self.x + 1) as u32, y: self.y }),
    {
        SmallTile { x: self.x + 1, y: self.y }
    }

    /// The tiles that cover this one, from the coarsest zoom to the finest.
    pub fn get_all_sizes(&self) -> (sizes: Vec<SizedTile>)
        ensures
            sizes@.len() == 4,
            forall|i: int| 0 <= i < 4 ==> (#[trigger] sizes@[i]) == self.covering((13 + i) as u8),
    {
        let finest = SizedTile::from(*self);
        let third = finest.next_larger();
        let second = third.next_larger();
        let coarsest = second.next_larger();
        let mut sizes: Vec<SizedTile> = Vec::new();
        sizes.push(coarsest);
        sizes.push(second);
        sizes.push(third);
        sizes.push(finest);
        sizes
    }
}

impl SizedTile {
    /// The tile one zoom coarser that covers this one.
    pub open spec fn parent(self) -> SizedTile {
        SizedTile { size: (self.size - 1) as u8, x: self.x / 2, y: self.y / 2 }
    }

    /// The tile one zoom coarser that covers this one.
    pub fn next_larger(&self) -> (t: SizedTile)
        requires
            self.size > 0,
        ensures
            t == self.parent(),
    {
        SizedTile { size: self.size - 1, x: self.x / 2, y: self.y / 2 }
    }
}

impl From<SmallTile> for SizedTile {
    fn from(t: SmallTile) -> (r: SizedTile) {
        SizedTile { size: SMALL_TILE_SIZE, x: t.x, y: t.y }
    }
}

impl FromSpecImpl<SmallTile> for SizedTile {
    open spec fn obeys_from_spec() -> bool {
        true
    }

    open spec fn from_spec(t: SmallTile) -> SizedTile {
        SizedTile { size: 16, x: t.x, y: t.y }
    }
}

} // verus!
