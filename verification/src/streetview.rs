//! The index of panoramas by tile, and the queries around a point.

use vstd::prelude::*;
use crate::db::decode_getmetadata;
use crate::db::getmetadata_of;
use crate::math::angle::Angle;
use crate::model::PanoLink;
use crate::math::is_at_least_within_radius;
use crate::math::underestimate_distance_sqr;
use crate::math::underestimate_sqr;
use crate::model::Location;
use crate::model::Pano;
use crate::model::PanoWithBothLocations;
use crate::model::SizedTile;
use crate::model::SmallTile;
use crate::model::TileBounds;
use crate::streetview::api::comes_before;
use crate::streetview::api::is_selection;

pub mod api;
pub mod tile_cache;

verus! {

/// The least time between two refreshes of the tiles around a moving point,
/// in seconds.
pub const CACHE_RESET_INTERVAL_SECONDS: u64 = 180;

/// The radius of a refresh around a moving point, in millimetres.
pub const CACHE_RESET_RADIUS: u64 = 1_000_000;

/// Whether the tiles around a moving point are to be refreshed,
/// `seconds_since_last` after the last refresh.
pub fn is_cache_reset_due(seconds_since_last: u64) -> (due: bool)
    ensures
        due == (seconds_since_last >= 180),
{
    seconds_since_last >= CACHE_RESET_INTERVAL_SECONDS
}

/// The links of a panorama, given its row of the metadata table: `None`
/// where the table has no row for it or the row cannot be read.
pub fn get_getmetadata_links(row: Option<&[u8]>) -> (links: Option<Vec<PanoLink>>)
    ensures
        match links {
            Some(l) => row.is_some() && getmetadata_of(row.unwrap()@).is_some() && getmetadata_of(
                row.unwrap()@,
            ).unwrap().1 == l@,
            None => row.is_none() || getmetadata_of(row.unwrap()@).is_none(),
        },
{
    match row {
        None => None,
        Some(bytes) => match decode_getmetadata(bytes) {
            Ok((_, links)) => Some(links),
            Err(_) => None,
        },
    }
}

/// Half the height, in angle units, of the band of latitudes that a query
/// of radius `min_distance` millimetres looks at: 1% more than the radius,
/// rounded down.
pub open spec fn band_bits(min_distance: u64) -> int {
    (min_distance * 101 * 2_147_483_647) / 2_003_750_820_000int
}

/// The band as an angle; a band beyond half a turn is half a turn.
pub open spec fn band_of(min_distance: u64) -> i32 {
    if band_bits(min_distance) > i32::MAX {
        i32::MAX
    } else {
        band_bits(min_distance) as i32
    }
}

/// See [`band_of`].
pub fn lat_band(min_distance: u64) -> (band: Angle)
    ensures
        band.0 == band_of(min_distance),
{
    let scaled: u128 = min_distance as u128 * 101 * 2_147_483_647;
    let bits: u128 = scaled / 2_003_750_820_000;
    if bits > i32::MAX as u128 {
        Angle::from_bits(i32::MAX)
    } else {
        Angle::from_bits(bits as i32)
    }
}

/// The least and the greatest latitude of the band around `loc`.
pub fn calculate_lat_bounds(loc: Location, min_distance: u64) -> (bounds: (Angle, Angle))
    ensures
        bounds.0.0 == loc.lat.0.wrapping_sub(band_of(min_distance)),
        bounds.1.0 == loc.lat.0.wrapping_add(band_of(min_distance)),
{
    let lat_diff = lat_band(min_distance);
    let max_lat = loc.lat + lat_diff;
    let min_lat = loc.lat - lat_diff;
    (min_lat, max_lat)
}

pub open spec fn least(a: u32, b: u32) -> u32 {
    if a <= b {
        a
    } else {
        b
    }
}

pub open spec fn greatest(a: u32, b: u32) -> u32 {
    if a <= b {
        b
    } else {
        a
    }
}

/// The corners of the block of tiles that two tiles span: the tile of the
/// least and the tile of the greatest coordinates.
pub fn calculate_tile_bounds(tile_a: SmallTile, tile_b: SmallTile) -> (corners: (
    SmallTile,
    SmallTile,
))
    ensures
        corners.0 == (SmallTile { x: least(tile_a.x, tile_b.x), y: least(tile_a.y, tile_b.y) }),
        corners.1 == (SmallTile {
            x: greatest(tile_a.x, tile_b.x),
            y: greatest(tile_a.y, tile_b.y),
        }),
{
    let min_tile = SmallTile {
        x: if tile_a.x <= tile_b.x {
            tile_a.x
        } else {
            tile_b.x
        },
        y: if tile_a.y <= tile_b.y {
            tile_a.y
        } else {
            tile_b.y
        },
    };
    let max_tile = SmallTile {
        x: if tile_a.x <= tile_b.x {
            tile_b.x
        } else {
            tile_a.x
        },
        y: if tile_a.y <= tile_b.y {
            tile_b.y
        } else {
            tile_a.y
        },
    };
    (min_tile, max_tile)
}

/// The panoramas are in order of the latitude of their search locations.
pub open spec fn sorted_by_lat(panos: Seq<PanoWithBothLocations>) -> bool {
    forall|i: int, j: int|
        #![trigger panos[i], panos[j]]
        0 <= i <= j < panos.len() ==> panos[i].search_loc.lat.0 <= panos[j].search_loc.lat.0
}

/// See [`sorted_by_lat`].
pub fn is_sorted_by_lat(panos: &Vec<PanoWithBothLocations>) -> (sorted: bool)
    ensures
        sorted == sorted_by_lat(panos@),
{
    let mut i: usize = 1;
    while i < panos.len()
        invariant
            1 <= i,
            forall|k: int, l: int|
                #![trigger panos@[k], panos@[l]]
                0 <= k <= l < i && l < panos@.len() ==> panos@[k].search_loc.lat.0
                    <= panos@[l].search_loc.lat.0,
        decreases panos@.len() - i,
    {
        if panos[i - 1].search_loc.lat.0 > panos[i].search_loc.lat.0 {
            assert(!(panos@[i - 1].search_loc.lat.0 <= panos@[i as int].search_loc.lat.0));
            return false;
        }
        proof {
            assert forall|k: int, l: int|
                #![trigger panos@[k], panos@[l]]
                0 <= k <= l < i + 1 && l < panos@.len() implies panos@[k].search_loc.lat.0
                <= panos@[l].search_loc.lat.0 by {
                if l == i && k < i {
                    assert(panos@[k].search_loc.lat.0 <= panos@[i - 1].search_loc.lat.0);
                }
            }
        }
        i = i + 1;
    }
    true
}

/// The index of the first panorama at or north of `lat`, or the number of
/// panoramas where there is none.
fn first_at_or_above(panos: &Vec<PanoWithBothLocations>, lat: Angle) -> (at: usize)
    requires
        sorted_by_lat(panos@),
    ensures
        at <= panos@.len(),
        forall|i: int| 0 <= i < at ==> (#[trigger] panos@[i]).search_loc.lat.0 < lat.0,
        forall|i: int| at <= i < panos@.len() ==> (#[trigger] panos@[i]).search_loc.lat.0 >= lat.0,
{
    let mut low: usize = 0;
    let mut high: usize = panos.len();
    while low < high
        invariant
            low <= high <= panos@.len(),
            sorted_by_lat(panos@),
            forall|i: int| 0 <= i < low ==> (#[trigger] panos@[i]).search_loc.lat.0 < lat.0,
            forall|i: int| high <= i < panos@.len() ==> (#[trigger] panos@[i]).search_loc.lat.0 >= lat.0,
        decreases high - low,
    {
        let mid: usize = low + (high - low) / 2;
        if panos[mid].search_loc.lat.0 < lat.0 {
            assert forall|i: int| 0 <= i < mid + 1 implies (#[trigger] panos@[i]).search_loc.lat.0
                < lat.0 by {
                assert(panos@[i].search_loc.lat.0 <= panos@[mid as int].search_loc.lat.0);
            }
            low = mid + 1;
        } else {
            assert forall|i: int| mid <= i < panos@.len() implies (#[trigger] panos@[i]).search_loc.lat.0
                >= lat.0 by {
                assert(panos@[mid as int].search_loc.lat.0 <= panos@[i].search_loc.lat.0);
            }
            high = mid;
        }
    }
    low
}

/// The index of the first panorama north of `lat`, or the number of
/// panoramas where there is none.
fn first_above(panos: &Vec<PanoWithBothLocations>, lat: Angle) -> (at: usize)
    requires
        sorted_by_lat(panos@),
    ensures
        at <= panos@.len(),
        forall|i: int| 0 <= i < at ==> (#[trigger] panos@[i]).search_loc.lat.0 <= lat.0,
        forall|i: int| at <= i < panos@.len() ==> (#[trigger] panos@[i]).search_loc.lat.0 > lat.0,
{
    let mut low: usize = 0;
    let mut high: usize = panos.len();
    while low < high
        invariant
            low <= high <= panos@.len(),
            sorted_by_lat(panos@),
            forall|i: int| 0 <= i < low ==> (#[trigger] panos@[i]).search_loc.lat.0 <= lat.0,
            forall|i: int| high <= i < panos@.len() ==> (#[trigger] panos@[i]).search_loc.lat.0 > lat.0,
        decreases high - low,
    {
        let mid: usize = low + (high - low) / 2;
        if panos[mid].search_loc.lat.0 <= lat.0 {
            assert forall|i: int| 0 <= i < mid + 1 implies (#[trigger] panos@[i]).search_loc.lat.0
                <= lat.0 by {
                assert(panos@[i].search_loc.lat.0 <= panos@[mid as int].search_loc.lat.0);
            }
            low = mid + 1;
        } else {
            assert forall|i: int| mid <= i < panos@.len() implies (#[trigger] panos@[i]).search_loc.lat.0
                > lat.0 by {
                assert(panos@[mid as int].search_loc.lat.0 <= panos@[i].search_loc.lat.0);
            }
            high = mid;
        }
    }
    low
}

proof fn lemma_filter_none(
    panos: Seq<PanoWithBothLocations>,
    pred: spec_fn(PanoWithBothLocations) -> bool,
    count: int,
)
    requires
        0 <= count <= panos.len(),
        forall|i: int| 0 <= i < count ==> !pred(#[trigger] panos[i]),
    ensures
        panos.take(count).filter(pred) == Seq::<PanoWithBothLocations>::empty(),
    decreases count,
{
    reveal(Seq::filter);
    if count > 0 {
        lemma_filter_none(panos, pred, count - 1);
        assert(panos.take(count).drop_last() =~= panos.take(count - 1));
        assert(panos.take(count).last() == panos[count - 1]);
    } else {
        assert(panos.take(0).len() == 0);
    }
}

proof fn lemma_filter_rest(
    panos: Seq<PanoWithBothLocations>,
    pred: spec_fn(PanoWithBothLocations) -> bool,
    from: int,
    count: int,
)
    requires
        0 <= from <= count <= panos.len(),
        forall|i: int| from <= i < count ==> !pred(#[trigger] panos[i]),
    ensures
        panos.take(count).filter(pred) == panos.take(from).filter(pred),
    decreases count,
{
    reveal(Seq::filter);
    if count > from {
        lemma_filter_rest(panos, pred, from, count - 1);
        assert(panos.take(count).drop_last() =~= panos.take(count - 1));
        assert(panos.take(count).last() == panos[count - 1]);
    }
}

/// Whether a panorama of a tile is taken by a query around `loc`: its search
/// location lies in the band of latitudes and the lower estimate of its
/// distance from `loc` is within `max_distance`.
pub open spec fn in_reach(
    pano: PanoWithBothLocations,
    loc: Location,
    min_lat: Angle,
    max_lat: Angle,
    max_distance: u64,
    approx_lng_mm_per_degree: u32,
) -> bool {
    &&& min_lat.0 <= pano.search_loc.lat.0 <= max_lat.0
    &&& underestimate_sqr(loc, pano.search_loc, approx_lng_mm_per_degree as int) <= max_distance
        * max_distance
}

/// Appends to `collect_into` the panoramas of a tile that a query around
/// `loc` takes, in their order. The panoramas of the tile must be in order
/// of latitude, as stored tiles are.
pub fn filter_panos_at_tile_into(
    loc: Location,
    panos_at_tile: &Vec<PanoWithBothLocations>,
    min_lat: Angle,
    max_lat: Angle,
    max_distance: u64,
    approx_lng_mm_per_degree: u32,
    collect_into: &mut Vec<PanoWithBothLocations>,
)
    requires
        sorted_by_lat(panos_at_tile@),
    ensures
        final(collect_into)@ == old(collect_into)@ + panos_at_tile@.filter(
            |p: PanoWithBothLocations|
                in_reach(p, loc, min_lat, max_lat, max_distance, approx_lng_mm_per_degree),
        ),
{
    let ghost pred = |p: PanoWithBothLocations|
        in_reach(p, loc, min_lat, max_lat, max_distance, approx_lng_mm_per_degree);
    let ghost all = panos_at_tile@;
    let first_within_lat = first_at_or_above(panos_at_tile, min_lat);
    let first_outside_lat = first_above(panos_at_tile, max_lat);
    if first_within_lat >= first_outside_lat {
        proof {
            assert forall|i: int| 0 <= i < all.len() implies !pred(#[trigger] all[i]) by {
                if i < first_within_lat {
                } else {
                    assert(i >= first_outside_lat);
                }
            }
            lemma_filter_none(all, pred, all.len() as int);
            assert(all.take(all.len() as int) =~= all);
            assert(collect_into@ =~= old(collect_into)@ + all.filter(pred));
        }
        return ;
    }
    proof {
        lemma_filter_none(all, pred, first_within_lat as int);
        assert(collect_into@ =~= old(collect_into)@ + all.take(first_within_lat as int).filter(pred));
    }
    let mut k: usize = first_within_lat;
    while k < first_outside_lat
        invariant
            first_within_lat <= k <= first_outside_lat <= panos_at_tile@.len(),
            all == panos_at_tile@,
            pred == (|p: PanoWithBothLocations|
                in_reach(p, loc, min_lat, max_lat, max_distance, approx_lng_mm_per_degree)),
            forall|i: int|
                first_within_lat <= i < first_outside_lat ==> min_lat.0 <= (
                #[trigger] all[i]).search_loc.lat.0 <= max_lat.0,
            collect_into@ == old(collect_into)@ + all.take(k as int).filter(pred),
        decreases first_outside_lat - k,
    {
        let pano = panos_at_tile[k];
        proof {
            assert(all.take(k + 1) =~= all.take(k as int).push(pano));
            all.take(k as int).lemma_filter_push(pano, pred);
            assert(min_lat.0 <= all[k as int].search_loc.lat.0 <= max_lat.0);
        }
        if is_at_least_within_radius(loc, pano.search_loc, max_distance, approx_lng_mm_per_degree) {
            collect_into.push(pano);
        }
        k = k + 1;
        proof {
            assert(collect_into@ =~= old(collect_into)@ + all.take(k as int).filter(pred));
        }
    }
    proof {
        lemma_filter_rest(all, pred, first_outside_lat as int, all.len() as int);
        assert(all.take(all.len() as int) =~= all);
    }
}

/// What a panorama is ranked by when the nearest is sought: with a radius,
/// its measured distance if it passes the planar check and lies within the
/// radius, and nothing otherwise; without one, the lower estimate of its
/// squared distance.
pub open spec fn rank(
    pano: PanoWithBothLocations,
    origin: Location,
    max_distance: Option<u64>,
    approx_lng_mm_per_degree: u32,
    measured: int,
) -> Option<int> {
    match max_distance {
        Some(radius) => if underestimate_sqr(
            origin,
            pano.search_loc,
            approx_lng_mm_per_degree as int,
        ) <= radius * radius && measured <= radius {
            Some(measured)
        } else {
            None
        },
        None => Some(underestimate_sqr(origin, pano.search_loc, approx_lng_mm_per_degree as int)),
    }
}

/// The index of the nearest of the first `count` panoramas: the first one
/// of least rank among those that have a rank.
pub open spec fn nearest_index(ranks: Seq<Option<int>>, count: int) -> Option<int>
    decreases count,
{
    if count <= 0 {
        None
    } else {
        let k = count - 1;
        match (nearest_index(ranks, k), ranks[k]) {
            (None, None) => None,
            (None, Some(_)) => Some(k),
            (Some(held), None) => Some(held),
            (Some(held), Some(r)) => if r < ranks[held].unwrap() {
                Some(k)
            } else {
                Some(held)
            },
        }
    }
}

/// The ranks of the panoramas, where `measured` holds the great-circle
/// distance of each from `origin`.
pub open spec fn ranks_of(
    panos: Seq<PanoWithBothLocations>,
    origin: Location,
    max_distance: Option<u64>,
    approx_lng_mm_per_degree: u32,
    measured: Seq<u64>,
) -> Seq<Option<int>> {
    Seq::new(
        panos.len(),
        |i: int| rank(panos[i], origin, max_distance, approx_lng_mm_per_degree, measured[i] as int),
    )
}

/// The nearest index is that of a panorama with a rank, no panorama has a
/// lesser rank, and none before it has the same rank.
pub proof fn lemma_nearest_is_least(ranks: Seq<Option<int>>, count: int)
    requires
        0 <= count <= ranks.len(),
    ensures
        nearest_index(ranks, count).is_none() ==> forall|i: int|
            0 <= i < count ==> (#[trigger] ranks[i]).is_none(),
        nearest_index(ranks, count).is_some() ==> {
            let r = nearest_index(ranks, count).unwrap();
            &&& 0 <= r < count
            &&& ranks[r].is_some()
            &&& forall|i: int|
                0 <= i < count && (#[trigger] ranks[i]).is_some() ==> ranks[r].unwrap()
                    <= ranks[i].unwrap()
            &&& forall|i: int|
                0 <= i < r && (#[trigger] ranks[i]).is_some() ==> ranks[r].unwrap()
                    < ranks[i].unwrap()
        },
    decreases count,
{
    if count > 0 {
        lemma_nearest_is_least(ranks, count - 1);
    }
}

/// The panorama nearest to `origin`, at its true location. With a radius
/// only panoramas within it count, and `measured` must hold the great-circle
/// distance of each panorama from `origin`; without one `measured` is not
/// read.
pub fn get_nearest_pano_in_array(
    panos: &Vec<PanoWithBothLocations>,
    origin: Location,
    max_distance: Option<u64>,
    approx_lng_mm_per_degree: u32,
    measured: &Vec<u64>,
) -> (nearest: Option<Pano>)
    requires
        max_distance.is_some() ==> measured@.len() == panos@.len(),
    ensures
        match nearest_index(
            ranks_of(panos@, origin, max_distance, approx_lng_mm_per_degree, measured@),
            panos@.len() as int,
        ) {
            None => nearest.is_none(),
            Some(i) => nearest == Some(Pano { id: panos@[i].id, loc: panos@[i].actual_loc }),
        },
{
    let ghost ranks = ranks_of(panos@, origin, max_distance, approx_lng_mm_per_degree, measured@);
    let mut nearest_pano: Option<Pano> = None;
    let mut nearest_rank: u128 = 0;
    let mut i: usize = 0;
    while i < panos.len()
        invariant
            i <= panos@.len(),
            max_distance.is_some() ==> measured@.len() == panos@.len(),
            ranks == ranks_of(panos@, origin, max_distance, approx_lng_mm_per_degree, measured@),
            match nearest_index(ranks, i as int) {
                None => nearest_pano.is_none(),
                Some(held) => 0 <= held < i && nearest_pano == Some(
                    Pano { id: panos@[held].id, loc: panos@[held].actual_loc },
                ) && ranks[held] == Some(nearest_rank as int),
            },
        decreases panos@.len() - i,
    {
        let pano = panos[i];
        let under = underestimate_distance_sqr(origin, pano.search_loc, approx_lng_mm_per_degree);
        let ranked: Option<u128> = match max_distance {
            Some(radius) => {
                assert(radius * radius <= 0xffff_ffff_ffff_ffff * 0xffff_ffff_ffff_ffff)
                    by (nonlinear_arith)
                    requires
                        radius <= 0xffff_ffff_ffff_ffff,
                ;
                if under <= radius as u128 * radius as u128 && measured[i] <= radius {
                    Some(measured[i] as u128)
                } else {
                    None
                }
            },
            None => Some(under),
        };
        assert(match ranked {
            Some(r) => ranks[i as int] == Some(r as int),
            None => ranks[i as int].is_none(),
        });
        match ranked {
            Some(r) => {
                if nearest_pano.is_none() || r < nearest_rank {
                    nearest_rank = r;
                    nearest_pano = Some(Pano { id: pano.id, loc: pano.actual_loc });
                }
            },
            None => {},
        }
        i = i + 1;
    }
    nearest_pano
}

/// The panoramas of a tile with both their locations: each found panorama
/// with the location it was found at as its search location and, as its true
/// location, the one that the metadata table holds for it, or the search
/// location where it holds none.
pub open spec fn located(panos: Seq<Pano>, known: Seq<Option<Location>>) -> Seq<
    PanoWithBothLocations,
> {
    Seq::new(
        panos.len(),
        |i: int|
            PanoWithBothLocations {
                id: panos[i].id,
                search_loc: panos[i].loc,
                actual_loc: match known[i] {
                    Some(loc) => loc,
                    None => panos[i].loc,
                },
            },
    )
}

/// The panoramas picked for a tile, located, are in order of latitude and
/// lie in the tile: what is stored for a tile is fit to be searched.
pub proof fn lemma_selected_tile_is_sorted(
    locations: Seq<Location>,
    bounds: TileBounds,
    picked: Seq<usize>,
    panos: Seq<Pano>,
    known: Seq<Option<Location>>,
)
    requires
        is_selection(locations, bounds, locations.len() as int, picked),
        panos.len() == picked.len(),
        known.len() == panos.len(),
        forall|k: int| 0 <= k < panos.len() ==> (#[trigger] panos[k]).loc == locations[picked[k] as int],
    ensures
        sorted_by_lat(located(panos, known)),
        forall|k: int|
            0 <= k < panos.len() ==> bounds.contains((#[trigger] located(panos, known)[k]).search_loc),
{
    let tile = located(panos, known);
    assert forall|i: int, j: int|
        #![trigger tile[i], tile[j]]
        0 <= i <= j < tile.len() implies tile[i].search_loc.lat.0 <= tile[j].search_loc.lat.0 by {
        assert(tile[i].search_loc == panos[i].loc);
        assert(tile[j].search_loc == panos[j].loc);
        if i < j {
            let a = picked[i];
            let b = picked[j];
            assert(comes_before(locations, a as int, b as int));
        }
    }
    assert forall|k: int| 0 <= k < panos.len() implies bounds.contains(
        (#[trigger] located(panos, known)[k]).search_loc,
    ) by {
        assert(tile[k].search_loc == panos[k].loc);
        let a = picked[k];
        assert(bounds.contains(locations[a as int]));
    }
}

/// See [`located`]. `known` holds for each panorama what the metadata table
/// holds of its location.
pub fn fetch_actual_locations_for_panos(panos: &Vec<Pano>, known: &Vec<Option<Location>>) -> (res:
    Vec<PanoWithBothLocations>)
    requires
        known@.len() == panos@.len(),
    ensures
        res@ == located(panos@, known@),
{
    let mut res: Vec<PanoWithBothLocations> = Vec::new();
    let mut i: usize = 0;
    while i < panos.len()
        invariant
            i <= panos@.len(),
            known@.len() == panos@.len(),
            res@ == located(panos@, known@).take(i as int),
        decreases panos@.len() - i,
    {
        let p = panos[i];
        let actual_loc = match known[i] {
            Some(loc) => loc,
            None => p.loc,
        };
        res.push(PanoWithBothLocations { id: p.id, search_loc: p.loc, actual_loc });
        i = i + 1;
        proof {
            assert(res@ =~= located(panos@, known@).take(i as int));
        }
    }
    proof {
        assert(located(panos@, known@).take(panos@.len() as int) =~= located(panos@, known@));
    }
    res
}

/// The tile after `tile` in a block of tiles, column by column and down each
/// column, or `None` after the last.
pub open spec fn tile_after(tile: SmallTile, min_tile: SmallTile, max_tile: SmallTile) -> Option<
    SmallTile,
> {
    if tile.y < max_tile.y {
        Some(SmallTile { x: tile.x, y: (tile.y + 1) as u32 })
    } else if tile.x < max_tile.x {
        Some(SmallTile { x: (tile.x + 1) as u32, y: min_tile.y })
    } else {
        None
    }
}

/// The `k`-th tile of a block of tiles, column by column and down each
/// column.
pub open spec fn tile_number(min_tile: SmallTile, max_tile: SmallTile, k: int) -> SmallTile {
    let height = max_tile.y - min_tile.y + 1;
    SmallTile { x: (min_tile.x + k / height) as u32, y: (min_tile.y + k % height) as u32 }
}

/// Going from tile to tile with [`tile_after`] from the first corner of a
/// block meets every tile of the block once: the tile after the `k`-th is
/// the next one, and after the last there is none.
pub proof fn lemma_tiles_in_order(min_tile: SmallTile, max_tile: SmallTile, k: int)
    requires
        min_tile.x <= max_tile.x,
        min_tile.y <= max_tile.y,
        0 <= k < (max_tile.x - min_tile.x + 1) * (max_tile.y - min_tile.y + 1),
    ensures
        tile_number(min_tile, max_tile, 0) == min_tile,
        min_tile.x <= tile_number(min_tile, max_tile, k).x <= max_tile.x,
        min_tile.y <= tile_number(min_tile, max_tile, k).y <= max_tile.y,
        tile_after(tile_number(min_tile, max_tile, k), min_tile, max_tile) == if k + 1 < (max_tile.x
            - min_tile.x + 1) * (max_tile.y - min_tile.y + 1) {
            Some(tile_number(min_tile, max_tile, k + 1))
        } else {
            None
        },
{
    let height: int = max_tile.y - min_tile.y + 1;
    let width: int = max_tile.x - min_tile.x + 1;
    vstd::arithmetic::div_mod::lemma_fundamental_div_mod(k, height);
    vstd::arithmetic::div_mod::lemma_fundamental_div_mod(k + 1, height);
    vstd::arithmetic::div_mod::lemma_mod_bound(k, height);
    vstd::arithmetic::div_mod::lemma_mod_bound(k + 1, height);
    vstd::arithmetic::div_mod::lemma_div_pos_is_pos(k, height);
    let column = k / height;
    let row = k % height;
    assert(column < width) by (nonlinear_arith)
        requires
            k == height * column + row,
            0 <= row,
            k < width * height,
            height > 0,
    ;
    vstd::arithmetic::div_mod::lemma_small_mod(0, height as nat);
    vstd::arithmetic::div_mod::lemma_basic_div(0, height);
    if row < height - 1 {
        assert(k + 1 == height * column + (row + 1));
        vstd::arithmetic::div_mod::lemma_fundamental_div_mod_converse(
            k + 1,
            height,
            column,
            row + 1,
        );
        assert(k + 1 < width * height) by (nonlinear_arith)
            requires
                k + 1 == height * column + (row + 1),
                row + 1 < height,
                column < width,
                height > 0,
        ;
    } else {
        assert(k + 1 == height * (column + 1) + 0) by (nonlinear_arith)
            requires
                k == height * column + row,
                row == height - 1,
        ;
        vstd::arithmetic::div_mod::lemma_fundamental_div_mod_converse(
            k + 1,
            height,
            column + 1,
            0,
        );
        if column < width - 1 {
            assert(k + 1 < width * height) by (nonlinear_arith)
                requires
                    k + 1 == height * (column + 1),
                    column + 1 < width,
                    height > 0,
            ;
        } else {
            assert(k + 1 == width * height) by (nonlinear_arith)
                requires
                    k + 1 == height * (column + 1),
                    column + 1 == width,
            ;
        }
    }
}

/// A query for the panoramas around a point, as it goes from tile to tile.
///
/// The caller asks for the next tile, finds the tile that answers for it
/// and hands its panoramas in.
pub struct NearbySearch {
    loc: Location,
    min_distance: u64,
    approx_lng_mm_per_degree: u32,
    min_lat: Angle,
    max_lat: Angle,
    origin_tile: SmallTile,
    min_tile: SmallTile,
    max_tile: SmallTile,
    pending: Option<SmallTile>,
    checked_tiles: Vec<SizedTile>,
    found_panos: Vec<PanoWithBothLocations>,
}

impl NearbySearch {
    /// The tile to hand out next.
    pub closed spec fn pending(&self) -> Option<SmallTile> {
        self.pending
    }

    /// The corners of the block of tiles that the query goes through.
    pub closed spec fn block(&self) -> (SmallTile, SmallTile) {
        (self.min_tile, self.max_tile)
    }

    /// The tiles that have answered so far.
    pub closed spec fn checked(&self) -> Seq<SizedTile> {
        self.checked_tiles@
    }

    /// The panoramas found so far.
    pub closed spec fn found(&self) -> Seq<PanoWithBothLocations> {
        self.found_panos@
    }

    /// The point that the query is around.
    pub closed spec fn center(&self) -> Location {
        self.loc
    }

    /// The radius of the query in millimetres.
    pub closed spec fn radius(&self) -> u64 {
        self.min_distance
    }

    /// The span of a degree of longitude at the centre, in millimetres.
    pub closed spec fn lng_scale(&self) -> u32 {
        self.approx_lng_mm_per_degree
    }

    /// The tile of the centre.
    pub closed spec fn origin(&self) -> SmallTile {
        self.origin_tile
    }

    /// The band of latitudes that the query looks at.
    pub closed spec fn band(&self) -> (Angle, Angle) {
        (self.min_lat, self.max_lat)
    }

    /// Whether a panorama of a tile is taken by the query.
    pub open spec fn takes(&self, pano: PanoWithBothLocations) -> bool {
        in_reach(
            pano,
            self.center(),
            self.band().0,
            self.band().1,
            self.radius(),
            self.lng_scale(),
        )
    }

    /// A query for the panoramas within `min_distance` millimetres of `loc`,
    /// which lies in `origin_tile`. `tile_a` and `tile_b` are the tiles of two
    /// opposite corners of the box around the circle.
    pub fn new(
        loc: Location,
        min_distance: u64,
        approx_lng_mm_per_degree: u32,
        origin_tile: SmallTile,
        tile_a: SmallTile,
        tile_b: SmallTile,
    ) -> (search: NearbySearch)
        ensures
            search.center() == loc,
            search.radius() == min_distance,
            search.lng_scale() == approx_lng_mm_per_degree,
            search.origin() == origin_tile,
            search.band().0.0 == loc.lat.0.wrapping_sub(band_of(min_distance)),
            search.band().1.0 == loc.lat.0.wrapping_add(band_of(min_distance)),
            search.block().0 == (SmallTile {
                x: least(tile_a.x, tile_b.x),
                y: least(tile_a.y, tile_b.y),
            }),
            search.block().1 == (SmallTile {
                x: greatest(tile_a.x, tile_b.x),
                y: greatest(tile_a.y, tile_b.y),
            }),
            search.pending() == Some(search.block().0),
            search.checked() == Seq::<SizedTile>::empty(),
            search.found() == Seq::<PanoWithBothLocations>::empty(),
    {
        let (min_lat, max_lat) = calculate_lat_bounds(loc, min_distance);
        let (min_tile, max_tile) = calculate_tile_bounds(tile_a, tile_b);
        NearbySearch {
            loc,
            min_distance,
            approx_lng_mm_per_degree,
            min_lat,
            max_lat,
            origin_tile,
            min_tile,
            max_tile,
            pending: Some(min_tile),
            checked_tiles: Vec::new(),
            found_panos: Vec::new(),
        }
    }

    /// The next tile of the block, or `None` once all were handed out.
    pub fn next_tile(&mut self) -> (tile: Option<SmallTile>)
        ensures
            tile == old(self).pending(),
            final(self).pending() == match old(self).pending() {
                Some(t) => tile_after(t, old(self).block().0, old(self).block().1),
                None => None,
            },
            final(self).block() == old(self).block(),
            final(self).checked() == old(self).checked(),
            final(self).found() == old(self).found(),
            final(self).center() == old(self).center(),
            final(self).radius() == old(self).radius(),
            final(self).lng_scale() == old(self).lng_scale(),
            final(self).origin() == old(self).origin(),
            final(self).band() == old(self).band(),
    {
        let tile = self.pending;
        match tile {
            Some(t) => {
                if t.y < self.max_tile.y {
                    self.pending = Some(SmallTile { x: t.x, y: t.y + 1 });
                } else if t.x < self.max_tile.x {
                    self.pending = Some(SmallTile { x: t.x + 1, y: self.min_tile.y });
                } else {
                    self.pending = None;
                }
            },
            None => {},
        }
        tile
    }

    /// Whether `tile`, whose box is `bounds`, is to be looked at: it is the
    /// tile of the centre, or a point within the radius may lie in it.
    pub fn wants(&self, tile: &SmallTile, bounds: &TileBounds) -> (wanted: bool)
        ensures
            wanted == (*tile == self.origin() || bounds.contains(self.center())
                || underestimate_sqr(
                self.center(),
                bounds.nearest(self.center()),
                self.lng_scale() as int,
            ) <= self.radius() * self.radius()),
    {
        (tile.x == self.origin_tile.x && tile.y == self.origin_tile.y)
            || tile.is_maybe_within_radius(
            bounds,
            self.loc,
            self.min_distance,
            self.approx_lng_mm_per_degree,
        )
    }

    /// Notes that `winning` answered for a tile of the block, and returns
    /// whether it had not answered before.
    pub fn mark_checked(&mut self, winning: &SizedTile) -> (fresh: bool)
        ensures
            fresh == !old(self).checked().contains(*winning),
            final(self).checked() == if fresh {
                old(self).checked().push(*winning)
            } else {
                old(self).checked()
            },
            final(self).pending() == old(self).pending(),
            final(self).block() == old(self).block(),
            final(self).found() == old(self).found(),
            final(self).center() == old(self).center(),
            final(self).radius() == old(self).radius(),
            final(self).lng_scale() == old(self).lng_scale(),
            final(self).origin() == old(self).origin(),
            final(self).band() == old(self).band(),
    {
        let mut i: usize = 0;
        while i < self.checked_tiles.len()
            invariant
                i <= self.checked_tiles@.len(),
                *self == *old(self),
                forall|k: int| 0 <= k < i ==> self.checked_tiles@[k] != *winning,
            decreases self.checked_tiles@.len() - i,
        {
            let seen = self.checked_tiles[i];
            if seen.size == winning.size && seen.x == winning.x && seen.y == winning.y {
                assert(self.checked_tiles@[i as int] == *winning);
                return false;
            }
            i = i + 1;
        }
        self.checked_tiles.push(*winning);
        true
    }

    /// Takes the panoramas of the tile `winning`, which answered for a tile
    /// of the block: if it had not answered before, those of its panoramas
    /// that lie in reach are added to what was found. The panoramas must be
    /// in order of latitude, as stored tiles are.
    pub fn absorb(&mut self, winning: &SizedTile, panos_at_tile: &Vec<PanoWithBothLocations>) -> (fresh:
        bool)
        requires
            sorted_by_lat(panos_at_tile@),
        ensures
            fresh == !old(self).checked().contains(*winning),
            final(self).checked() == if fresh {
                old(self).checked().push(*winning)
            } else {
                old(self).checked()
            },
            final(self).found() == if fresh {
                old(self).found() + panos_at_tile@.filter(
                    |p: PanoWithBothLocations| old(self).takes(p),
                )
            } else {
                old(self).found()
            },
            final(self).pending() == old(self).pending(),
            final(self).block() == old(self).block(),
            final(self).center() == old(self).center(),
            final(self).radius() == old(self).radius(),
            final(self).lng_scale() == old(self).lng_scale(),
            final(self).origin() == old(self).origin(),
            final(self).band() == old(self).band(),
    {
        if !self.mark_checked(winning) {
            return false;
        }
        filter_panos_at_tile_into(
            self.loc,
            panos_at_tile,
            self.min_lat,
            self.max_lat,
            self.min_distance,
            self.approx_lng_mm_per_degree,
            &mut self.found_panos,
        );
        proof {
            let here = |p: PanoWithBothLocations|
                in_reach(
                    p,
                    self.loc,
                    self.min_lat,
                    self.max_lat,
                    self.min_distance,
                    self.approx_lng_mm_per_degree,
                );
            let there = |p: PanoWithBothLocations| old(self).takes(p);
            assert(here =~= there);
        }
        true
    }

    /// What the query found.
    pub fn get_nearby_panos(self) -> (found: Vec<PanoWithBothLocations>)
        ensures
            found@ == self.found(),
    {
        self.found_panos
    }
}

} // verus!
