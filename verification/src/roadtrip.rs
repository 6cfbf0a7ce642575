//! The ways on from a panorama entered with a heading.
//!
//! The caller measures the neighbourhood: for each nearby panorama its
//! bearing from the current one and its great-circle distance to each of the
//! points that [`probe_plan`] names. The rules that pick the ways on are here.

use vstd::prelude::*;
use crate::cache::store_entries;
use crate::cache::store_get;
use crate::cache::store_insert;
use crate::cache::store_with;
use crate::cache::Cached;
use crate::cache::CachedView;
use crate::cache::Store;
use crate::math::calculate_heading_diff;
use crate::math::heading_diff;
use crate::math::heading_from_single;
use crate::math::microdegrees_of;
use crate::math::normalized;
use crate::math::turn_heading;
use crate::math::underestimate_distance_sqr;
use crate::math::underestimate_sqr;
use crate::math::PLANAR_SQR_MAX;
use crate::model::Location;
use crate::model::Pano;
use crate::model::PanoId;
use crate::model::PanoLink;
use crate::model::PanoWithBothLocations;

verus! {

/// The radius, in millimetres, within which panoramas count as nearby.
pub const MAX_SEARCH_RADIUS: u64 = 82_000;

/// A way on must lie within this of the current heading, in microdegrees.
pub const HEADING_WINDOW: i32 = 100_000_000;

/// Two ways on must differ by at least this, in microdegrees.
pub const MIN_SEPARATION: i32 = 15_000_000;

/// A single way on within this of the current heading counts as straight.
pub const STRAIGHT_WINDOW: i32 = 20_000_000;

/// How far ahead the five probes look, in millimetres.
pub const PROBE_DISTANCE: u64 = 13_000;

/// How far ahead the search reaches where there is no way on.
pub const REACH_ALONE: u64 = 20_000;

/// How far ahead the search reaches beyond a single straight way on.
pub const REACH_BEYOND: u64 = 30_000;

/// How far the side probes of the reach look: `REACH_BEYOND` over 0.707.
pub const REACH_SIDE: u64 = 42_432;

/// A way on: the panorama to go to and the heading on arrival, in
/// microdegrees.
#[derive(Clone, Copy, Debug)]
pub struct PanoOptionRes {
    pub pano: Pano,
    pub heading: i32,
}

/// The ways on from a node, before a turnaround is considered.
#[derive(Clone, Debug)]
pub struct BasePanoOptionsRes {
    pub options: Vec<PanoOptionRes>,
}

/// The ways on from a node, and whether they were found by turning around.
#[derive(Clone, Debug)]
pub struct PanoOptionsRes {
    pub options: Vec<PanoOptionRes>,
    pub turnaround: bool,
}

/// A probe point: where it lies from the current panorama.
#[derive(Clone, Copy, Debug, PartialEq, Eq, Structural)]
pub struct ProbePoint {
    /// In microdegrees, in [0°, 360°).
    pub direction: i32,
    /// In millimetres.
    pub distance: u64,
}

/// A nearby panorama with what the caller measured of it.
#[derive(Clone, Copy, Debug)]
pub struct Candidate {
    pub pano: PanoWithBothLocations,
    /// The bearing from the current panorama to the true location of this
    /// one, in microdegrees.
    pub heading: i32,
    /// The great-circle distance between the search location and the true
    /// location of this panorama, in millimetres.
    pub offset: u64,
    /// The great-circle distance from the search location of this panorama to
    /// each probe point, in millimetres.
    pub distances: [u64; 9],
}

/// The neighbourhood of the current panorama for one heading.
#[derive(Clone, Debug)]
pub struct Surroundings {
    pub candidates: Vec<Candidate>,
    /// The probe points, in the order of [`probe_plan`].
    pub targets: [Location; 9],
    /// The span of a degree of longitude at the current panorama.
    pub approx_lng_mm_per_degree: u32,
}

impl Candidate {
    /// The panorama at its true location, which is where a step to it ends.
    pub open spec fn landing(self) -> Pano {
        Pano { id: self.pano.id, loc: self.pano.actual_loc }
    }

    /// The way on to this panorama.
    pub open spec fn option(self) -> PanoOptionRes {
        PanoOptionRes { pano: self.landing(), heading: self.heading }
    }
}

/// The nine probe points for a heading: 13 m at 0°, -45°, +45°, +90° and
/// -90° from it; 20 m and 30 m straight on; and 30 m / 0.707 at -45° and +45°.
pub open spec fn planned(heading: i32) -> Seq<ProbePoint> {
    seq![
        ProbePoint { direction: normalized(heading as int) as i32, distance: 13_000 },
        ProbePoint { direction: normalized(heading - 45_000_000) as i32, distance: 13_000 },
        ProbePoint { direction: normalized(heading + 45_000_000) as i32, distance: 13_000 },
        ProbePoint { direction: normalized(heading + 90_000_000) as i32, distance: 13_000 },
        ProbePoint { direction: normalized(heading - 90_000_000) as i32, distance: 13_000 },
        ProbePoint { direction: normalized(heading as int) as i32, distance: 20_000 },
        ProbePoint { direction: normalized(heading as int) as i32, distance: 30_000 },
        ProbePoint { direction: normalized(heading - 45_000_000) as i32, distance: 42_432 },
        ProbePoint { direction: normalized(heading + 45_000_000) as i32, distance: 42_432 },
    ]
}

/// See [`planned`].
pub fn probe_plan(heading: i32) -> (plan: [ProbePoint; 9])
    ensures
        plan@ == planned(heading),
{
    let ahead = turn_heading(heading, 0);
    let left = turn_heading(heading, -45_000_000);
    let right = turn_heading(heading, 45_000_000);
    let plan = [
        ProbePoint { direction: ahead, distance: PROBE_DISTANCE },
        ProbePoint { direction: left, distance: PROBE_DISTANCE },
        ProbePoint { direction: right, distance: PROBE_DISTANCE },
        ProbePoint { direction: turn_heading(heading, 90_000_000), distance: PROBE_DISTANCE },
        ProbePoint { direction: turn_heading(heading, -90_000_000), distance: PROBE_DISTANCE },
        ProbePoint { direction: ahead, distance: REACH_ALONE },
        ProbePoint { direction: ahead, distance: REACH_BEYOND },
        ProbePoint { direction: left, distance: REACH_SIDE },
        ProbePoint { direction: right, distance: REACH_SIDE },
    ];
    proof {
        assert(plan@ =~= planned(heading));
    }
    plan
}

/// The heading faced after turning around.
pub fn reversed_heading(heading: i32) -> (back: i32)
    ensures
        back == normalized(heading + 180_000_000),
{
    turn_heading(heading, 180_000_000)
}

/// The offset of the first candidate with the id `id`, or 0 where none has
/// it.
pub open spec fn offset_of(candidates: Seq<Candidate>, id: PanoId) -> u64
    decreases candidates.len(),
{
    if candidates.len() == 0 {
        0
    } else if candidates.first().pano.id == id {
        candidates.first().offset
    } else {
        offset_of(candidates.drop_first(), id)
    }
}

/// See [`offset_of`].
pub fn origin_offset(candidates: &Vec<Candidate>, id: PanoId) -> (offset: u64)
    ensures
        offset == offset_of(candidates@, id),
{
    let mut i: usize = 0;
    assert(candidates@.subrange(0, candidates@.len() as int) =~= candidates@);
    while i < candidates.len()
        invariant
            i <= candidates@.len(),
            offset_of(candidates@, id) == offset_of(
                candidates@.subrange(i as int, candidates@.len() as int),
                id,
            ),
        decreases candidates@.len() - i,
    {
        let ghost rest = candidates@.subrange(i as int, candidates@.len() as int);
        if candidates[i].pano.id == id {
            assert(rest.first() == candidates@[i as int]);
            return candidates[i].offset;
        }
        proof {
            assert(rest.first() == candidates@[i as int]);
            assert(rest.drop_first() =~= candidates@.subrange(
                i + 1,
                candidates@.len() as int,
            ));
        }
        i = i + 1;
    }
    0
}

/// The lower estimates of the squared distances from the candidates to a
/// point.
pub open spec fn estimates(s: Surroundings, probe: int) -> Seq<int> {
    Seq::new(
        s.candidates@.len(),
        |i: int|
            underestimate_sqr(
                s.candidates@[i].pano.search_loc,
                s.targets@[probe],
                s.approx_lng_mm_per_degree as int,
            ),
    )
}

/// The great-circle distances from the candidates to a point.
pub open spec fn measured(s: Surroundings, probe: int) -> Seq<int> {
    Seq::new(s.candidates@.len(), |i: int| s.candidates@[i].distances@[probe] as int)
}

/// The least of the first `count` values.
pub open spec fn least_of(values: Seq<int>, count: int) -> int
    decreases count,
{
    if count <= 1 {
        values[0]
    } else {
        let before = least_of(values, count - 1);
        if values[count - 1] < before {
            values[count - 1]
        } else {
            before
        }
    }
}

/// The candidate that a scan of the first `count` candidates holds as the
/// closest. The first whose estimate is within `bound` is held; after that a
/// candidate replaces the one held if its estimate is within the square of
/// the distance of the one held and its distance is strictly less.
pub open spec fn scanned(estimate: Seq<int>, distance: Seq<int>, bound: int, count: int) -> Option<
    int,
>
    decreases count,
{
    if count <= 0 {
        None
    } else {
        let k = count - 1;
        match scanned(estimate, distance, bound, k) {
            None => if estimate[k] <= bound {
                Some(k)
            } else {
                None
            },
            Some(held) => if estimate[k] <= distance[held] * distance[held] && distance[k]
                < distance[held] {
                Some(k)
            } else {
                Some(held)
            },
        }
    }
}

/// The index of the candidate closest to a point among those that the
/// estimates let through, or `None` where there is no candidate or the least
/// estimate exceeds the square of `max_distance`. The scan starts with a
/// bound 0.1% above the least estimate, and no more than the square of
/// `max_distance`.
pub open spec fn closest(estimate: Seq<int>, distance: Seq<int>, max_distance: int) -> Option<
    int,
> {
    if estimate.len() == 0 {
        None
    } else {
        let least = least_of(estimate, estimate.len() as int);
        let limit = max_distance * max_distance;
        if least > limit {
            None
        } else {
            let raised = least + least / 1000;
            scanned(
                estimate,
                distance,
                if raised < limit {
                    raised
                } else {
                    limit
                },
                estimate.len() as int,
            )
        }
    }
}

/// Twice the distance ahead and the offset of the origin, no more than the
/// greatest length.
pub open spec fn reach(forward_distance: u64, origin_offset: u64) -> int {
    if forward_distance * 2 + origin_offset > u64::MAX {
        u64::MAX as int
    } else {
        forward_distance * 2 + origin_offset
    }
}

/// The index of the candidate closest to probe point `probe`.
pub open spec fn closest_forward(
    s: Surroundings,
    origin_offset: u64,
    probe: int,
    forward_distance: u64,
) -> Option<int> {
    closest(estimates(s, probe), measured(s, probe), reach(forward_distance, origin_offset))
}

/// The `i`-th estimate is no more than the square of the `i`-th distance.
pub open spec fn is_lower_bound(estimate: Seq<int>, distance: Seq<int>, i: int) -> bool {
    0 <= distance[i] && estimate[i] <= distance[i] * distance[i]
}

/// Where the estimates are lower bounds of the squared distances, the scan
/// returns the first candidate of least distance from the first one that the
/// bound lets through onwards.
pub proof fn lemma_scanned_is_least(
    estimate: Seq<int>,
    distance: Seq<int>,
    bound: int,
    count: int,
)
    requires
        0 <= count <= estimate.len(),
        estimate.len() == distance.len(),
        forall|i: int| 0 <= i < estimate.len() ==> #[trigger] is_lower_bound(estimate, distance, i),
    ensures
        scanned(estimate, distance, bound, count).is_none() ==> forall|i: int|
            0 <= i < count ==> #[trigger] estimate[i] > bound,
        scanned(estimate, distance, bound, count).is_some() ==> {
            let r = scanned(estimate, distance, bound, count).unwrap();
            &&& 0 <= r < count
            &&& exists|f: int|
                {
                    &&& 0 <= f <= r
                    &&& #[trigger] estimate[f] <= bound
                    &&& forall|i: int| 0 <= i < f ==> #[trigger] estimate[i] > bound
                    &&& forall|i: int| f <= i < count ==> distance[r] <= #[trigger] distance[i]
                    &&& forall|i: int| f <= i < r ==> distance[r] < #[trigger] distance[i]
                }
        },
    decreases count,
{
    if count > 0 {
        let k = count - 1;
        lemma_scanned_is_least(estimate, distance, bound, k);
        match scanned(estimate, distance, bound, k) {
            None => {
                if estimate[k] <= bound {
                    assert(estimate[k] <= bound);
                }
            },
            Some(held) => {
                let f = choose|f: int|
                    {
                        &&& 0 <= f <= held
                        &&& #[trigger] estimate[f] <= bound
                        &&& forall|i: int| 0 <= i < f ==> #[trigger] estimate[i] > bound
                        &&& forall|i: int| f <= i < k ==> distance[held] <= #[trigger] distance[i]
                        &&& forall|i: int| f <= i < held ==> distance[held] < #[trigger] distance[i]
                    };
                let r = scanned(estimate, distance, bound, count).unwrap();
                if estimate[k] <= distance[held] * distance[held] && distance[k] < distance[held] {
                    assert(r == k);
                    assert(estimate[f] <= bound);
                } else {
                    assert(r == held);
                    if distance[k] < distance[held] {
                        assert(is_lower_bound(estimate, distance, k));
                        assert(distance[k] * distance[k] <= distance[held] * distance[held])
                            by (nonlinear_arith)
                            requires
                                0 <= distance[k] < distance[held],
                        ;
                    }
                    assert(distance[held] <= distance[k]);
                    assert(estimate[f] <= bound);
                }
            },
        }
    }
}

/// Where the estimates are lower bounds and the bound of the scan is no less
/// than the squared distance of some candidate that it lets through, the scan
/// returns the first of the candidates nearest to the point among all.
pub proof fn lemma_scanned_is_nearest(
    estimate: Seq<int>,
    distance: Seq<int>,
    bound: int,
    witness: int,
)
    requires
        estimate.len() == distance.len(),
        forall|i: int| 0 <= i < estimate.len() ==> #[trigger] is_lower_bound(estimate, distance, i),
        0 <= witness < estimate.len(),
        estimate[witness] <= bound,
        distance[witness] * distance[witness] <= bound,
    ensures
        scanned(estimate, distance, bound, estimate.len() as int).is_some(),
        forall|i: int|
            0 <= i < estimate.len() ==> distance[scanned(
                estimate,
                distance,
                bound,
                estimate.len() as int,
            ).unwrap()] <= #[trigger] distance[i],
{
    let n = estimate.len() as int;
    lemma_scanned_is_least(estimate, distance, bound, n);
    if scanned(estimate, distance, bound, n).is_none() {
        assert(estimate[witness] > bound);
    }
    let r = scanned(estimate, distance, bound, n).unwrap();
    let f = choose|f: int|
        {
            &&& 0 <= f <= r
            &&& #[trigger] estimate[f] <= bound
            &&& forall|i: int| 0 <= i < f ==> #[trigger] estimate[i] > bound
            &&& forall|i: int| f <= i < n ==> distance[r] <= #[trigger] distance[i]
            &&& forall|i: int| f <= i < r ==> distance[r] < #[trigger] distance[i]
        };
    assert(witness >= f) by {
        if witness < f {
            assert(estimate[witness] > bound);
        }
    }
    assert(distance[r] <= distance[witness]);
    assert(is_lower_bound(estimate, distance, r));
    assert(is_lower_bound(estimate, distance, witness));
    assert(distance[r] * distance[r] <= distance[witness] * distance[witness]) by (nonlinear_arith)
        requires
            0 <= distance[r] <= distance[witness],
    ;
    assert forall|i: int| 0 <= i < n implies distance[r] <= #[trigger] distance[i] by {
        if i < f {
            assert(estimate[i] > bound);
            assert(is_lower_bound(estimate, distance, i));
            if distance[i] < distance[r] {
                assert(distance[i] * distance[i] <= distance[r] * distance[r]) by (nonlinear_arith)
                    requires
                        0 <= distance[i] < distance[r],
                ;
            }
        }
    }
}

/// The first `count` published links as ways on, in their order, without
/// those whose stored heading is no heading in microdegrees.
pub open spec fn ways_of(links: Seq<PanoLink>, count: int) -> Seq<PanoOptionRes>
    decreases count,
{
    if count <= 0 {
        Seq::empty()
    } else {
        match microdegrees_of(links[count - 1].heading) {
            Some(heading) => ways_of(links, count - 1).push(
                PanoOptionRes { pano: links[count - 1].pano, heading },
            ),
            None => ways_of(links, count - 1),
        }
    }
}

/// See [`ways_of`].
pub fn links_as_options(links: &Vec<PanoLink>) -> (options: Vec<PanoOptionRes>)
    ensures
        options@ == ways_of(links@, links@.len() as int),
{
    let mut options: Vec<PanoOptionRes> = Vec::new();
    let mut i: usize = 0;
    while i < links.len()
        invariant
            i <= links@.len(),
            options@ == ways_of(links@, i as int),
        decreases links@.len() - i,
    {
        let link = links[i];
        match heading_from_single(link.heading) {
            Some(heading) => {
                options.push(PanoOptionRes { pano: link.pano, heading });
            },
            None => {},
        }
        i = i + 1;
    }
    options
}

/// The published links that lie within 100° of the heading, in their
/// order.
pub open spec fn link_options(links: Seq<PanoOptionRes>, heading: i32) -> Seq<PanoOptionRes> {
    links.filter(|l: PanoOptionRes| heading_diff(l.heading as int, heading as int) <= 100_000_000)
}

/// Whether a way on stands in the way of a candidate: it leads to the same
/// panorama or the same place, or its heading is within 15° of the
/// candidate's.
pub open spec fn clash(option: PanoOptionRes, c: Candidate) -> bool {
    option.pano.id == c.pano.id || option.pano.loc == c.pano.actual_loc || heading_diff(
        option.heading as int,
        c.heading as int,
    ) < 15_000_000
}

/// Whether any of the ways on stands in the way of a candidate.
pub open spec fn clashes(options: Seq<PanoOptionRes>, c: Candidate) -> bool {
    exists|i: int| 0 <= i < options.len() && #[trigger] clash(options[i], c)
}

/// The candidate found at probe point `probe`, which lies `forward_distance`
/// from the current panorama.
pub open spec fn found_at(s: Surroundings, cur: Pano, probe: int, forward_distance: u64) -> Option<
    Candidate,
> {
    match closest_forward(s, offset_of(s.candidates@, cur.id), probe, forward_distance) {
        None => None,
        Some(i) => Some(s.candidates@[i]),
    }
}

/// The ways on after what a probe found has been considered: it is added
/// unless it is the current panorama, lies more than 100° off the heading, or
/// clashes with a way on that is kept already.
pub open spec fn with_probe(
    options: Seq<PanoOptionRes>,
    cur: Pano,
    heading: i32,
    found: Option<Candidate>,
) -> Seq<PanoOptionRes> {
    match found {
        None => options,
        Some(c) => if c.pano.id == cur.id || heading_diff(heading as int, c.heading as int)
            > 100_000_000 || clashes(options, c) {
            options
        } else {
            options.push(c.option())
        },
    }
}

/// The ways on after the first `count` of the five probes at 13 m.
pub open spec fn probed(
    s: Surroundings,
    cur: Pano,
    heading: i32,
    options: Seq<PanoOptionRes>,
    count: int,
) -> Seq<PanoOptionRes>
    decreases count,
{
    if count <= 0 {
        options
    } else {
        with_probe(
            probed(s, cur, heading, options, count - 1),
            cur,
            heading,
            found_at(s, cur, count - 1, 13_000),
        )
    }
}

/// Whether a side probe of the reach finds a panorama other than the
/// straight one and the current one.
pub open spec fn side_way(s: Surroundings, cur: Pano, straight: Candidate, probe: int) -> bool {
    match found_at(s, cur, probe, 42_432) {
        None => false,
        Some(c) => c.pano.id != straight.pano.id && c.pano.id != cur.id,
    }
}

/// The ways on after the reach further ahead. Several ways on stay as they
/// are, and so does a single one that is 20° or more off the heading. With no
/// way on, what lies 20 m ahead replaces the empty set. With a single straight
/// way on, what lies 30 m ahead replaces it if neither side probe finds a
/// way of its own. What lies ahead counts only if it is neither the way on
/// that is there, nor the current panorama, nor more than 100° off.
pub open spec fn reached_further(
    s: Surroundings,
    cur: Pano,
    heading: i32,
    options: Seq<PanoOptionRes>,
) -> Seq<PanoOptionRes> {
    if options.len() > 1 {
        options
    } else if options.len() == 1 && heading_diff(options[0].heading as int, heading as int)
        >= 20_000_000 {
        options
    } else {
        let side_check = options.len() == 1;
        let found = if side_check {
            found_at(s, cur, 6, 30_000)
        } else {
            found_at(s, cur, 5, 20_000)
        };
        match found {
            None => options,
            Some(c) => if (side_check && options[0].pano.id == c.pano.id) || c.pano.id == cur.id
                || heading_diff(heading as int, c.heading as int) > 100_000_000 {
                options
            } else if !side_check {
                seq![c.option()]
            } else if side_way(s, cur, c, 7) || side_way(s, cur, c, 8) {
                options
            } else {
                seq![c.option()]
            },
        }
    }
}

/// The ways on from `cur` entered with `heading`: the links within the
/// heading window, then what the five probes add, then the reach further
/// ahead.
pub open spec fn options_ahead(
    s: Surroundings,
    cur: Pano,
    heading: i32,
    links: Seq<PanoOptionRes>,
) -> Seq<PanoOptionRes> {
    reached_further(s, cur, heading, probed(s, cur, heading, link_options(links, heading), 5))
}

fn find_closest_pano(s: &Surroundings, probe: usize, max_distance: u64) -> (found: Option<usize>)
    requires
        probe < 9,
    ensures
        found.is_some() ==> found.unwrap() < s.candidates@.len(),
        match found {
            None => closest(estimates(*s, probe as int), measured(*s, probe as int), max_distance as int)
                == None::<int>,
            Some(i) => closest(
                estimates(*s, probe as int),
                measured(*s, probe as int),
                max_distance as int,
            ) == Some(i as int),
        },
{
    let n = s.candidates.len();
    let ghost estimate = estimates(*s, probe as int);
    let ghost distance = measured(*s, probe as int);
    if n == 0 {
        return None;
    }
    let target = s.targets[probe];
    let mut unders: Vec<u128> = Vec::new();
    let mut nearest: u128 = 0;
    let mut i: usize = 0;
    while i < n
        invariant
            i <= n,
            n == s.candidates@.len(),
            probe < 9,
            target == s.targets@[probe as int],
            estimate == estimates(*s, probe as int),
            unders@.len() == i,
            forall|k: int| 0 <= k < i ==> (#[trigger] unders@[k]) == estimate[k],
            forall|k: int| 0 <= k < i ==> (#[trigger] unders@[k]) <= PLANAR_SQR_MAX,
            i > 0 ==> nearest == least_of(estimate, i as int),
            nearest <= PLANAR_SQR_MAX,
        decreases n - i,
    {
        let under = underestimate_distance_sqr(
            s.candidates[i].pano.search_loc,
            target,
            s.approx_lng_mm_per_degree,
        );
        unders.push(under);
        if i == 0 || under < nearest {
            nearest = under;
        }
        i = i + 1;
    }
    assert(max_distance * max_distance <= 0xffff_ffff_ffff_ffff * 0xffff_ffff_ffff_ffff)
        by (nonlinear_arith)
        requires
            max_distance <= 0xffff_ffff_ffff_ffff,
    ;
    let limit: u128 = max_distance as u128 * max_distance as u128;
    if nearest > limit {
        return None;
    }
    let raised: u128 = nearest + nearest / 1000;
    let bound: u128 = if raised < limit {
        raised
    } else {
        limit
    };
    let mut held: Option<usize> = None;
    let mut k: usize = 0;
    while k < n
        invariant
            k <= n,
            n == s.candidates@.len(),
            probe < 9,
            estimate == estimates(*s, probe as int),
            distance == measured(*s, probe as int),
            unders@.len() == n,
            forall|j: int| 0 <= j < n ==> (#[trigger] unders@[j]) == estimate[j],
            held.is_some() ==> held.unwrap() < k,
            match held {
                None => scanned(estimate, distance, bound as int, k as int) == None::<int>,
                Some(h) => scanned(estimate, distance, bound as int, k as int) == Some(h as int),
            },
        decreases n - k,
    {
        let d: u64 = s.candidates[k].distances[probe];
        match held {
            Some(h) => {
                let held_d: u64 = s.candidates[h].distances[probe];
                assert(held_d * held_d <= 0xffff_ffff_ffff_ffff * 0xffff_ffff_ffff_ffff)
                    by (nonlinear_arith)
                    requires
                        held_d <= 0xffff_ffff_ffff_ffff,
                ;
                if unders[k] <= held_d as u128 * held_d as u128 && d < held_d {
                    held = Some(k);
                }
            },
            None => {
                if unders[k] <= bound {
                    held = Some(k);
                }
            },
        }
        k = k + 1;
    }
    held
}

/// See [`closest_forward`].
fn get_closest_pano_forward(
    s: &Surroundings,
    origin_pano_offset: u64,
    probe: usize,
    forward_distance: u64,
) -> (found: Option<usize>)
    requires
        probe < 9,
    ensures
        found.is_some() ==> found.unwrap() < s.candidates@.len(),
        match found {
            None => closest_forward(*s, origin_pano_offset, probe as int, forward_distance)
                == None::<int>,
            Some(i) => closest_forward(*s, origin_pano_offset, probe as int, forward_distance)
                == Some(i as int),
        },
{
    let sum: u128 = forward_distance as u128 * 2 + origin_pano_offset as u128;
    let max_distance: u64 = if sum > u64::MAX as u128 {
        u64::MAX
    } else {
        sum as u64
    };
    find_closest_pano(s, probe, max_distance)
}

/// The candidate found at a probe point: see [`found_at`].
fn probe_at(
    s: &Surroundings,
    cur_pano: &Pano,
    origin_pano_offset: u64,
    probe: usize,
    forward_distance: u64,
) -> (found: Option<Candidate>)
    requires
        probe < 9,
        origin_pano_offset == offset_of(s.candidates@, cur_pano.id),
    ensures
        found == found_at(*s, *cur_pano, probe as int, forward_distance),
{
    match get_closest_pano_forward(s, origin_pano_offset, probe, forward_distance) {
        Some(i) => Some(s.candidates[i]),
        None => None,
    }
}

fn has_clash(options: &Vec<PanoOptionRes>, c: &Candidate) -> (r: bool)
    ensures
        r == clashes(options@, *c),
{
    let mut i: usize = 0;
    while i < options.len()
        invariant
            i <= options@.len(),
            forall|k: int| 0 <= k < i ==> !#[trigger] clash(options@[k], *c),
        decreases options@.len() - i,
    {
        let option = options[i];
        if option.pano.id == c.pano.id || option.pano.loc == c.pano.actual_loc
            || calculate_heading_diff(option.heading, c.heading) < MIN_SEPARATION {
            assert(clash(options@[i as int], *c));
            return true;
        }
        i = i + 1;
    }
    false
}

fn as_option(c: &Candidate) -> (option: PanoOptionRes)
    ensures
        option == c.option(),
{
    PanoOptionRes { pano: Pano { id: c.pano.id, loc: c.pano.actual_loc }, heading: c.heading }
}

/// See [`reached_further`].
fn maybe_get_further_straight(
    cur_pano: &Pano,
    origin_pano_offset: u64,
    cur_heading: i32,
    options: &mut Vec<PanoOptionRes>,
    s: &Surroundings,
)
    requires
        origin_pano_offset == offset_of(s.candidates@, cur_pano.id),
    ensures
        final(options)@ == reached_further(*s, *cur_pano, cur_heading, old(options)@),
{
    if options.len() > 1 {
        return ;
    }
    let side_check = options.len() == 1;
    if side_check && calculate_heading_diff(options[0].heading, cur_heading) >= STRAIGHT_WINDOW {
        return ;
    }
    let found = if side_check {
        probe_at(s, cur_pano, origin_pano_offset, 6, REACH_BEYOND)
    } else {
        probe_at(s, cur_pano, origin_pano_offset, 5, REACH_ALONE)
    };
    let further_straight = match found {
        Some(c) => c,
        None => { return ; },
    };
    if side_check && options[0].pano.id == further_straight.pano.id {
        return ;
    }
    if further_straight.pano.id == cur_pano.id {
        return ;
    }
    if calculate_heading_diff(cur_heading, further_straight.heading) > HEADING_WINDOW {
        return ;
    }
    let straight_pano = as_option(&further_straight);
    if side_check {
        let mut probe: usize = 7;
        while probe < 9
            invariant
                7 <= probe <= 9,
                origin_pano_offset == offset_of(s.candidates@, cur_pano.id),
                options@ == old(options)@,
                reached_further(*s, *cur_pano, cur_heading, old(options)@) == if side_way(
                    *s,
                    *cur_pano,
                    further_straight,
                    7,
                ) || side_way(*s, *cur_pano, further_straight, 8) {
                    old(options)@
                } else {
                    seq![further_straight.option()]
                },
                forall|p: int| 7 <= p < probe ==> !#[trigger] side_way(*s, *cur_pano, further_straight, p),
            decreases 9 - probe,
        {
            match probe_at(s, cur_pano, origin_pano_offset, probe, REACH_SIDE) {
                Some(c) => {
                    if c.pano.id != further_straight.pano.id && c.pano.id != cur_pano.id {
                        assert(side_way(*s, *cur_pano, further_straight, probe as int));
                        assert(probe == 7 || probe == 8);
                        assert(options@ == old(options)@);
                        return ;
                    }
                },
                None => {},
            }
            probe = probe + 1;
        }
    }
    proof {
        if side_check {
            assert(!side_way(*s, *cur_pano, further_straight, 7));
            assert(!side_way(*s, *cur_pano, further_straight, 8));
        }
    }
    options.clear();
    options.push(straight_pano);
    proof {
        assert(options@ =~= seq![further_straight.option()]);
    }
}

/// The ways on from `cur_pano` entered with `cur_heading`, given its
/// published links and its measured neighbourhood: see [`options_ahead`].
pub fn get_options_no_turnaround(
    cur_pano: &Pano,
    cur_heading: i32,
    links: &Vec<PanoOptionRes>,
    surroundings: &Surroundings,
) -> (res: BasePanoOptionsRes)
    ensures
        res.options@ == options_ahead(*surroundings, *cur_pano, cur_heading, links@),
{
    let origin_pano_offset = origin_offset(&surroundings.candidates, cur_pano.id);
    let mut options: Vec<PanoOptionRes> = Vec::new();
    let mut i: usize = 0;
    while i < links.len()
        invariant
            i <= links@.len(),
            options@ == link_options(links@.take(i as int), cur_heading),
        decreases links@.len() - i,
    {
        let link = links[i];
        proof {
            assert(links@.take(i + 1) =~= links@.take(i as int).push(link));
            links@.take(i as int).lemma_filter_push(
                link,
                |l: PanoOptionRes| heading_diff(l.heading as int, cur_heading as int) <= 100_000_000,
            );
        }
        if calculate_heading_diff(link.heading, cur_heading) <= HEADING_WINDOW {
            options.push(link);
        }
        i = i + 1;
    }
    proof {
        assert(links@.take(links@.len() as int) =~= links@);
    }
    let ghost seeded = options@;
    let mut probe: usize = 0;
    while probe < 5
        invariant
            probe <= 5,
            origin_pano_offset == offset_of(surroundings.candidates@, cur_pano.id),
            options@ == probed(*surroundings, *cur_pano, cur_heading, seeded, probe as int),
        decreases 5 - probe,
    {
        match probe_at(surroundings, cur_pano, origin_pano_offset, probe, PROBE_DISTANCE) {
            Some(c) => {
                if !(c.pano.id == cur_pano.id) && !(calculate_heading_diff(cur_heading, c.heading)
                    > HEADING_WINDOW) && !has_clash(&options, &c) {
                    options.push(as_option(&c));
                }
            },
            None => {},
        }
        probe = probe + 1;
    }
    maybe_get_further_straight(
        cur_pano,
        origin_pano_offset,
        cur_heading,
        &mut options,
        surroundings,
    );
    BasePanoOptionsRes { options }
}

/// How many entries the cache of ways on is made for.
pub const OPTION_CACHE_SIZE: usize = 8_388_608;

/// The ways on that were found before, by heading and panorama id.
pub struct OptionCache {
    entries: Store,
}

/// The key under which the ways on for a heading and a panorama id are held.
pub open spec fn option_key(key: (i32, u32)) -> (i64, u32, u32) {
    (key.0 as i64, key.1, 0u32)
}

/// The ways on that a cache holds, by heading and panorama id.
pub open spec fn held_options(entries: Map<(i64, u32, u32), CachedView>) -> Map<
    (i32, u32),
    Seq<PanoOptionRes>,
> {
    Map::new(
        |key: (i32, u32)|
            entries.contains_key(option_key(key)) && entries[option_key(key)] is Options,
        |key: (i32, u32)| entries[option_key(key)]->Options_0,
    )
}

impl View for OptionCache {
    type V = Map<(i32, u32), Seq<PanoOptionRes>>;

    closed spec fn view(&self) -> Map<(i32, u32), Seq<PanoOptionRes>> {
        held_options(store_entries(self.entries))
    }
}

/// Every entry of the cache is what `truth` gives for its key.
pub open spec fn agrees_with(
    entries: Map<(i32, u32), Seq<PanoOptionRes>>,
    truth: spec_fn((i32, u32)) -> Seq<PanoOptionRes>,
) -> bool {
    forall|key: (i32, u32)| #[trigger] entries.contains_key(key) ==> entries[key] == truth(key)
}

/// The answer with the cache in use: what the cache holds for the key, or
/// the computed answer where it holds nothing.
pub open spec fn answer_with_cache(
    entries: Map<(i32, u32), Seq<PanoOptionRes>>,
    key: (i32, u32),
    computed: Seq<PanoOptionRes>,
) -> Seq<PanoOptionRes> {
    if entries.contains_key(key) {
        entries[key]
    } else {
        computed
    }
}

/// The cache does not change an answer: as long as only computed answers are
/// stored, the answer with the cache in use is the computed answer, and
/// storing a computed answer keeps it so.
pub proof fn lemma_cache_is_transparent(
    before: Map<(i32, u32), Seq<PanoOptionRes>>,
    after: Map<(i32, u32), Seq<PanoOptionRes>>,
    truth: spec_fn((i32, u32)) -> Seq<PanoOptionRes>,
    key: (i32, u32),
)
    requires
        agrees_with(before, truth),
        after.submap_of(before.insert(key, truth(key))),
    ensures
        answer_with_cache(before, key, truth(key)) == truth(key),
        agrees_with(after, truth),
        answer_with_cache(after, key, truth(key)) == truth(key),
{
    assert forall|k: (i32, u32)| #[trigger] after.contains_key(k) implies after[k] == truth(k) by {
        assert(before.insert(key, truth(key)).contains_key(k));
        if k != key {
            assert(before.contains_key(k));
        }
    }
}

impl OptionCache {
    /// A cache for about `capacity` entries that holds nothing.
    pub fn new(capacity: usize) -> (cache: OptionCache)
        ensures
            cache@ == (Map::<(i32, u32), Seq<PanoOptionRes>>::empty()),
    {
        let cache = OptionCache { entries: store_with(capacity) };
        proof {
            assert(cache@ =~= Map::<(i32, u32), Seq<PanoOptionRes>>::empty());
        }
        cache
    }

    /// The ways on held for `cur_pano` entered with `cur_heading`, if the
    /// cache is in use and holds them.
    pub fn lookup(&self, cur_pano: &Pano, cur_heading: i32, use_option_cache: bool) -> (res:
        Option<BasePanoOptionsRes>)
        ensures
            res.is_some() == (use_option_cache && self@.contains_key((cur_heading, cur_pano.id.0))),
            res.is_some() ==> res.unwrap().options@ == self@[(cur_heading, cur_pano.id.0)],
    {
        if !use_option_cache {
            return None;
        }
        match store_get(&self.entries, (cur_heading as i64, cur_pano.id.0, 0)) {
            Some(Cached::Options(options)) => Some(BasePanoOptionsRes { options }),
            _ => None,
        }
    }

    /// Stores the ways on found for `cur_pano` entered with `cur_heading`,
    /// if the cache is in use. The cache may evict any entry to make room.
    pub fn store(
        &mut self,
        cur_pano: &Pano,
        cur_heading: i32,
        use_option_cache: bool,
        res: &BasePanoOptionsRes,
    )
        ensures
            !use_option_cache ==> final(self)@ == old(self)@,
            use_option_cache ==> final(self)@.submap_of(
                old(self)@.insert((cur_heading, cur_pano.id.0), res.options@),
            ),
    {
        if use_option_cache {
            let options = copy_options(&res.options);
            store_insert(
                &mut self.entries,
                (cur_heading as i64, cur_pano.id.0, 0),
                Cached::Options(options),
            );
            proof {
                let key = (cur_heading, cur_pano.id.0);
                let before = store_entries(old(self).entries);
                let after = store_entries(self.entries);
                assert forall|k: (i32, u32)| #[trigger] self@.dom().contains(k) implies old(
                    self,
                )@.insert(key, res.options@).dom().contains(k) && self@[k] == old(self)@.insert(
                    key,
                    res.options@,
                )[k] by {
                    assert(after.dom().contains(option_key(k)));
                    assert(before.insert(option_key(key), CachedView::Options(res.options@)).dom().contains(
                        option_key(k),
                    ));
                    if k != key {
                        assert(option_key(k) != option_key(key));
                        assert(before.contains_key(option_key(k)));
                    }
                }
            }
        }
    }
}

fn copy_options(options: &Vec<PanoOptionRes>) -> (copy: Vec<PanoOptionRes>)
    ensures
        copy@ == options@,
{
    let mut copy: Vec<PanoOptionRes> = Vec::new();
    let mut i: usize = 0;
    while i < options.len()
        invariant
            i <= options@.len(),
            copy@ == options@.take(i as int),
        decreases options@.len() - i,
    {
        copy.push(options[i]);
        i = i + 1;
        proof {
            assert(copy@ =~= options@.take(i as int));
        }
    }
    proof {
        assert(options@.take(options@.len() as int) =~= options@);
    }
    copy
}

/// Where a request for the ways on stands between two steps.
#[derive(Clone, Copy, Debug, PartialEq, Eq, Structural)]
pub enum OptionsPhase {
    /// Not begun.
    Idle,
    /// The neighbourhood is being measured: for the heading of the request,
    /// or, where the flag is set, for the opposite heading.
    Waiting(bool),
    /// Ended.
    Done,
}

/// A request for the ways on from a panorama entered with a heading.
#[derive(Clone, Copy, Debug)]
pub struct OptionsRequest {
    pub cur_pano: Pano,
    /// In microdegrees.
    pub cur_heading: i32,
    /// Whether the ways on for the opposite heading are taken where there is
    /// none ahead.
    pub allow_turnaround: bool,
    /// Whether the cache is in use.
    pub use_option_cache: bool,
    pub phase: OptionsPhase,
}

/// What the caller has to tell a request for the ways on.
pub enum OptionsEvent {
    /// The request begins.
    Begin,
    /// The published links of the panorama as ways on, and its neighbourhood
    /// measured for the heading that was asked for.
    Measured(Vec<PanoOptionRes>, Surroundings),
}

/// What a request for the ways on asks of the caller, or what it ends with.
pub enum OptionsAction {
    /// Read the links of the panorama and measure its neighbourhood for this
    /// heading.
    Measure(i32),
    /// The ways on.
    Done(PanoOptionsRes),
    /// The event does not answer what was asked.
    OutOfTurn,
}

/// The heading that a request looks along: its own, or the opposite one
/// after it has turned around.
pub open spec fn heading_now(request: OptionsRequest, turned: bool) -> i32 {
    if turned {
        normalized(request.cur_heading + 180_000_000) as i32
    } else {
        request.cur_heading
    }
}

/// What the cache answers a request, if it is in use and holds an answer.
pub open spec fn cached_answer(
    entries: Map<(i32, u32), Seq<PanoOptionRes>>,
    request: OptionsRequest,
    turned: bool,
) -> Option<Seq<PanoOptionRes>> {
    let key = (heading_now(request, turned), request.cur_pano.id.0);
    if request.use_option_cache && entries.contains_key(key) {
        Some(entries[key])
    } else {
        None
    }
}

/// The request is the same but for its phase.
pub open spec fn same_request(before: OptionsRequest, after: OptionsRequest) -> bool {
    after == (OptionsRequest { phase: after.phase, ..before })
}

/// The request has an answer for the heading it looks along. Where that is
/// its own heading, there is no way on and a turnaround is allowed, it turns
/// around: it ends with what the cache holds for the opposite heading, marked
/// as a turnaround, or has the neighbourhood measured for that heading. Else
/// it ends with the answer.
pub open spec fn settled(
    before: OptionsRequest,
    entries: Map<(i32, u32), Seq<PanoOptionRes>>,
    answer: Seq<PanoOptionRes>,
    turned: bool,
    after: OptionsRequest,
    action: OptionsAction,
) -> bool {
    &&& same_request(before, after)
    &&& if !turned && before.allow_turnaround && answer.len() == 0 {
        match cached_answer(entries, before, true) {
            Some(back) => after.phase == OptionsPhase::Done && match action {
                OptionsAction::Done(res) => res.options@ == back && res.turnaround,
                _ => false,
            },
            None => after.phase == OptionsPhase::Waiting(true) && match action {
                OptionsAction::Measure(heading) => heading == heading_now(before, true),
                _ => false,
            },
        }
    } else {
        after.phase == OptionsPhase::Done && match action {
            OptionsAction::Done(res) => res.options@ == answer && res.turnaround == turned,
            _ => false,
        }
    }
}

/// What a step of a request does.
///
/// At the beginning the cache is asked; what it holds is the answer, and
/// without one the neighbourhood is to be measured. What was measured gives
/// the answer by [`options_ahead`], which is stored in the cache. An answer
/// settles the request: see [`settled`]. An event that does not answer what
/// was asked changes nothing.
pub open spec fn options_stepped(
    before: OptionsRequest,
    entries: Map<(i32, u32), Seq<PanoOptionRes>>,
    event: OptionsEvent,
    after: OptionsRequest,
    new_entries: Map<(i32, u32), Seq<PanoOptionRes>>,
    action: OptionsAction,
) -> bool {
    match (before.phase, event) {
        (OptionsPhase::Idle, OptionsEvent::Begin) => {
            &&& new_entries == entries
            &&& match cached_answer(entries, before, false) {
                Some(answer) => settled(before, entries, answer, false, after, action),
                None => same_request(before, after) && after.phase == OptionsPhase::Waiting(false)
                    && match action {
                    OptionsAction::Measure(heading) => heading == before.cur_heading,
                    _ => false,
                },
            }
        },
        (OptionsPhase::Waiting(turned), OptionsEvent::Measured(links, surroundings)) => {
            let answer = options_ahead(
                surroundings,
                before.cur_pano,
                heading_now(before, turned),
                links@,
            );
            &&& if before.use_option_cache {
                new_entries.submap_of(
                    entries.insert(
                        (heading_now(before, turned), before.cur_pano.id.0),
                        answer,
                    ),
                )
            } else {
                new_entries == entries
            }
            &&& settled(before, new_entries, answer, turned, after, action)
        },
        _ => after == before && new_entries == entries && action is OutOfTurn,
    }
}

impl OptionsRequest {
    /// A request that has not begun.
    pub fn new(
        cur_pano: Pano,
        cur_heading: i32,
        allow_turnaround: bool,
        use_option_cache: bool,
    ) -> (request: OptionsRequest)
        ensures
            request == (OptionsRequest {
                cur_pano,
                cur_heading,
                allow_turnaround,
                use_option_cache,
                phase: OptionsPhase::Idle,
            }),
    {
        OptionsRequest {
            cur_pano,
            cur_heading,
            allow_turnaround,
            use_option_cache,
            phase: OptionsPhase::Idle,
        }
    }
}

fn settle(
    request: &mut OptionsRequest,
    cache: &OptionCache,
    answer: Vec<PanoOptionRes>,
    turned: bool,
) -> (action: OptionsAction)
    ensures
        settled(*old(request), cache@, answer@, turned, *final(request), action),
{
    if !turned && request.allow_turnaround && answer.len() == 0 {
        let back_heading = reversed_heading(request.cur_heading);
        match cache.lookup(&request.cur_pano, back_heading, request.use_option_cache) {
            Some(res) => {
                request.phase = OptionsPhase::Done;
                OptionsAction::Done(PanoOptionsRes { options: res.options, turnaround: true })
            },
            None => {
                request.phase = OptionsPhase::Waiting(true);
                OptionsAction::Measure(back_heading)
            },
        }
    } else {
        request.phase = OptionsPhase::Done;
        OptionsAction::Done(PanoOptionsRes { options: answer, turnaround: turned })
    }
}

/// Takes what the caller tells a request for the ways on and says what to do
/// next: see [`options_stepped`].
pub fn get_options(request: &mut OptionsRequest, cache: &mut OptionCache, event: OptionsEvent) -> (action:
    OptionsAction)
    ensures
        options_stepped(
            *old(request),
            old(cache)@,
            event,
            *final(request),
            final(cache)@,
            action,
        ),
{
    match (request.phase, event) {
        (OptionsPhase::Idle, OptionsEvent::Begin) => {
            match cache.lookup(&request.cur_pano, request.cur_heading, request.use_option_cache) {
                Some(res) => settle(request, cache, res.options, false),
                None => {
                    request.phase = OptionsPhase::Waiting(false);
                    OptionsAction::Measure(request.cur_heading)
                },
            }
        },
        (OptionsPhase::Waiting(turned), OptionsEvent::Measured(links, surroundings)) => {
            let heading = if turned {
                reversed_heading(request.cur_heading)
            } else {
                request.cur_heading
            };
            let res = get_options_no_turnaround(&request.cur_pano, heading, &links, &surroundings);
            cache.store(&request.cur_pano, heading, request.use_option_cache, &res);
            settle(request, cache, res.options, turned)
        },
        _ => OptionsAction::OutOfTurn,
    }
}

} // verus!
