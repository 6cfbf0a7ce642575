use internet_roadtrip_pathfinder::math::angle::Angle;
use internet_roadtrip_pathfinder::model::Location;
use internet_roadtrip_pathfinder::model::Pano;
use internet_roadtrip_pathfinder::model::PanoId;
use internet_roadtrip_pathfinder::model::PanoWithBothLocations;
use internet_roadtrip_pathfinder::roadtrip::get_options;
use internet_roadtrip_pathfinder::model::PanoLink;
use internet_roadtrip_pathfinder::roadtrip::get_options_no_turnaround;
use internet_roadtrip_pathfinder::roadtrip::links_as_options;
use internet_roadtrip_pathfinder::roadtrip::origin_offset;
use internet_roadtrip_pathfinder::roadtrip::probe_plan;
use internet_roadtrip_pathfinder::roadtrip::reversed_heading;
use internet_roadtrip_pathfinder::roadtrip::BasePanoOptionsRes;
use internet_roadtrip_pathfinder::roadtrip::Candidate;
use internet_roadtrip_pathfinder::roadtrip::OptionCache;
use internet_roadtrip_pathfinder::roadtrip::OptionsAction;
use internet_roadtrip_pathfinder::roadtrip::OptionsEvent;
use internet_roadtrip_pathfinder::roadtrip::OptionsRequest;
use internet_roadtrip_pathfinder::roadtrip::PanoOptionRes;
use internet_roadtrip_pathfinder::roadtrip::ProbePoint;
use internet_roadtrip_pathfinder::roadtrip::Surroundings;

const DEG: i32 = 1_000_000;
const EQUATOR: u32 = 111_319_490;
/// Millimetres per angle unit.
const UNIT: f64 = 9.3307;

fn loc(lat: i32, lng: i32) -> Location {
    Location::new(Angle::from_bits(lat), Angle::from_bits(lng))
}

fn cur() -> Pano {
    Pano { id: PanoId(1), loc: loc(0, 0) }
}

/// The probe points around (0, 0) for a heading of 0° or 180°, in angle
/// units.
fn targets(north: bool) -> [Location; 9] {
    let s = if north { 1 } else { -1 };
    [
        loc(s * 1393, 0),
        loc(s * 985, -s * 985),
        loc(s * 985, s * 985),
        loc(0, s * 1393),
        loc(0, -s * 1393),
        loc(s * 2144, 0),
        loc(s * 3215, 0),
        loc(s * 3215, -s * 3215),
        loc(s * 3215, s * 3215),
    ]
}

fn flat_distance(a: Location, b: Location) -> u64 {
    let dlat = (a.lat.to_bits() - b.lat.to_bits()) as f64;
    let dlng = (a.lng.to_bits() - b.lng.to_bits()) as f64;
    ((dlat * dlat + dlng * dlng).sqrt() * UNIT) as u64
}

fn candidate(id: u32, at: Location, heading: i32, north: bool) -> Candidate {
    let points = targets(north);
    let mut distances = [0u64; 9];
    for i in 0..9 {
        distances[i] = flat_distance(at, points[i]);
    }
    Candidate {
        pano: PanoWithBothLocations { id: PanoId(id), search_loc: at, actual_loc: at },
        heading,
        offset: 0,
        distances,
    }
}

fn around(places: &[(u32, Location, i32)], north: bool) -> Surroundings {
    Surroundings {
        candidates: places.iter().map(|&(id, at, h)| candidate(id, at, h, north)).collect(),
        targets: targets(north),
        approx_lng_mm_per_degree: EQUATOR,
    }
}

fn link(id: u32, heading: i32) -> PanoOptionRes {
    PanoOptionRes { pano: Pano { id: PanoId(id), loc: loc(id as i32, id as i32) }, heading }
}

fn described(options: &[PanoOptionRes]) -> Vec<(u32, i32)> {
    options.iter().map(|o| (o.pano.id.0, o.heading)).collect()
}

#[test]
fn probes_are_planned_around_the_heading() {
    let plan = probe_plan(10 * DEG);
    assert_eq!(
        plan,
        [
            ProbePoint { direction: 10 * DEG, distance: 13_000 },
            ProbePoint { direction: 325 * DEG, distance: 13_000 },
            ProbePoint { direction: 55 * DEG, distance: 13_000 },
            ProbePoint { direction: 100 * DEG, distance: 13_000 },
            ProbePoint { direction: 280 * DEG, distance: 13_000 },
            ProbePoint { direction: 10 * DEG, distance: 20_000 },
            ProbePoint { direction: 10 * DEG, distance: 30_000 },
            ProbePoint { direction: 325 * DEG, distance: 42_432 },
            ProbePoint { direction: 55 * DEG, distance: 42_432 },
        ]
    );
    assert_eq!(reversed_heading(10 * DEG), 190 * DEG);
    assert_eq!(reversed_heading(270 * DEG), 90 * DEG);
}

#[test]
fn links_outside_the_heading_window_are_left_out() {
    let links = vec![link(2, 100 * DEG), link(3, 101 * DEG), link(4, 260 * DEG), link(5, 259 * DEG), link(6, 0)];
    let res = get_options_no_turnaround(&cur(), 0, &links, &around(&[], true));
    assert_eq!(described(&res.options), vec![(2, 100 * DEG), (4, 260 * DEG), (6, 0)]);
}

#[test]
fn reach_further_replaces_an_empty_set() {
    // nothing within 26 m of any point at 13 m, one panorama 45 m ahead
    let s = around(&[(2, loc(4823, 0), 0)], true);
    let res = get_options_no_turnaround(&cur(), 0, &vec![], &s);
    assert_eq!(described(&res.options), vec![(2, 0)]);
}

#[test]
fn a_pano_twenty_metres_ahead_is_the_only_way_on() {
    let s = around(&[(2, loc(2144, 0), 0)], true);
    let res = get_options_no_turnaround(&cur(), 0, &vec![], &s);
    assert_eq!(described(&res.options), vec![(2, 0)]);
}

#[test]
fn the_current_pano_is_no_way_on() {
    let s = around(&[(1, loc(0, 0), 0)], true);
    let res = get_options_no_turnaround(&cur(), 0, &vec![], &s);
    assert!(res.options.is_empty());
}

#[test]
fn a_pano_behind_is_no_way_on() {
    let s = around(&[(2, loc(-1500, 0), 180 * DEG)], true);
    let res = get_options_no_turnaround(&cur(), 0, &vec![], &s);
    assert!(res.options.is_empty());
}

#[test]
fn a_probe_adds_nothing_that_clashes_with_a_link() {
    // the link leads to the panorama that the probes find
    let s = around(&[(2, loc(1393, 0), 0)], true);
    let res = get_options_no_turnaround(&cur(), 0, &vec![link(2, 40 * DEG), link(3, 80 * DEG)], &s);
    assert_eq!(described(&res.options), vec![(2, 40 * DEG), (3, 80 * DEG)]);
    // another panorama whose heading is within 15° of a link
    let s = around(&[(4, loc(1393, 0), 30 * DEG)], true);
    let res = get_options_no_turnaround(&cur(), 0, &vec![link(2, 40 * DEG), link(3, 80 * DEG)], &s);
    assert_eq!(described(&res.options), vec![(2, 40 * DEG), (3, 80 * DEG)]);
    // one that is 15° away is added
    let s = around(&[(4, loc(1393, 0), 25 * DEG)], true);
    let res = get_options_no_turnaround(&cur(), 0, &vec![link(2, 40 * DEG), link(3, 80 * DEG)], &s);
    assert_eq!(described(&res.options), vec![(2, 40 * DEG), (3, 80 * DEG), (4, 25 * DEG)]);
}

#[test]
fn probes_find_a_way_ahead_and_ways_to_the_sides() {
    let s = around(&[(2, loc(1393, 0), 0), (3, loc(0, 1393), 90 * DEG), (4, loc(0, -1393), 270 * DEG)], true);
    let res = get_options_no_turnaround(&cur(), 0, &vec![], &s);
    assert_eq!(described(&res.options), vec![(2, 0), (3, 90 * DEG), (4, 270 * DEG)]);
}

#[test]
fn a_single_straight_way_is_replaced_by_what_lies_further_ahead() {
    // a link straight on, and another panorama 30 m ahead with none to the sides
    let s = around(&[(3, loc(3215, 0), 0)], true);
    let res = get_options_no_turnaround(&cur(), 0, &vec![link(2, 5 * DEG)], &s);
    assert_eq!(described(&res.options), vec![(3, 0)]);
}

#[test]
fn a_single_straight_way_stays_where_a_side_probe_finds_a_way() {
    let s = around(&[(3, loc(3215, 0), 0), (4, loc(3215, 3215), 45 * DEG)], true);
    let res = get_options_no_turnaround(&cur(), 0, &vec![link(2, 5 * DEG)], &s);
    assert_eq!(described(&res.options), vec![(2, 5 * DEG)]);
}

#[test]
fn a_single_way_that_is_not_straight_stays() {
    // 45 m ahead: out of reach of the probes at 13 m, in reach of the one at 30 m
    let s = around(&[(3, loc(4823, 0), 0)], true);
    let res = get_options_no_turnaround(&cur(), 0, &vec![link(2, 20 * DEG)], &s);
    assert_eq!(described(&res.options), vec![(2, 20 * DEG)]);
}

#[test]
fn the_closest_candidate_to_a_probe_wins() {
    // both lie near the point 13 m ahead; the second is closer to it
    let s = around(&[(2, loc(1000, 0), 0), (3, loc(1400, 0), 0)], true);
    let res = get_options_no_turnaround(&cur(), 0, &vec![], &s);
    assert_eq!(described(&res.options)[0], (3, 0));
}

#[test]
fn a_step_lands_at_the_true_location() {
    let mut s = around(&[(2, loc(1393, 0), 0)], true);
    s.candidates[0].pano.actual_loc = loc(900_000, 900_000);
    let res = get_options_no_turnaround(&cur(), 0, &vec![], &s);
    assert_eq!(res.options.len(), 1);
    assert_eq!(res.options[0].pano.loc, loc(900_000, 900_000));
}

#[test]
fn the_offset_of_the_origin_widens_the_reach() {
    // the current panorama is listed 40 m behind where it is; the panorama
    // 45 m ahead is 32 m from the point at 13 m, beyond twice 13 m but not
    // beyond twice 13 m and 40 m
    let mut s = around(&[(1, loc(-4287, 0), 0), (2, loc(4823, 0), 0)], true);
    let res = get_options_no_turnaround(&cur(), 0, &vec![link(9, 90 * DEG), link(8, 270 * DEG)], &s);
    assert_eq!(described(&res.options), vec![(9, 90 * DEG), (8, 270 * DEG)]);
    s.candidates[0].offset = 40_000;
    assert_eq!(origin_offset(&s.candidates, PanoId(1)), 40_000);
    assert_eq!(origin_offset(&s.candidates, PanoId(2)), 0);
    assert_eq!(origin_offset(&s.candidates, PanoId(3)), 0);
    let res = get_options_no_turnaround(&cur(), 0, &vec![link(9, 90 * DEG), link(8, 270 * DEG)], &s);
    assert_eq!(described(&res.options), vec![(9, 90 * DEG), (8, 270 * DEG), (2, 0)]);
}

fn asked_heading(action: OptionsAction) -> i32 {
    match action {
        OptionsAction::Measure(heading) => heading,
        _ => panic!("expected a heading to measure for"),
    }
}

fn answer(action: OptionsAction) -> (Vec<(u32, i32)>, bool) {
    match action {
        OptionsAction::Done(res) => (described(&res.options), res.turnaround),
        _ => panic!("expected the ways on"),
    }
}

#[test]
fn turnaround_is_taken_where_there_is_no_way_on() {
    let places = [(2, loc(-1393, 0), 180 * DEG)];
    let mut cache = OptionCache::new(64);
    let mut request = OptionsRequest::new(cur(), 0, true, true);
    assert_eq!(asked_heading(get_options(&mut request, &mut cache, OptionsEvent::Begin)), 0);
    let ahead = OptionsEvent::Measured(vec![], around(&places, true));
    assert_eq!(asked_heading(get_options(&mut request, &mut cache, ahead)), 180 * DEG);
    let behind = OptionsEvent::Measured(vec![], around(&places, false));
    assert_eq!(
        answer(get_options(&mut request, &mut cache, behind)),
        (vec![(2, 180 * DEG)], true)
    );

    // both answers are in the cache now
    let mut request = OptionsRequest::new(cur(), 0, true, true);
    assert_eq!(
        answer(get_options(&mut request, &mut cache, OptionsEvent::Begin)),
        (vec![(2, 180 * DEG)], true)
    );
    assert!(matches!(
        get_options(&mut request, &mut cache, OptionsEvent::Begin),
        OptionsAction::OutOfTurn
    ));
}

#[test]
fn no_turnaround_where_it_is_not_allowed() {
    let places = [(2, loc(-1393, 0), 180 * DEG)];
    let mut cache = OptionCache::new(64);
    let mut request = OptionsRequest::new(cur(), 0, false, true);
    assert_eq!(asked_heading(get_options(&mut request, &mut cache, OptionsEvent::Begin)), 0);
    let ahead = OptionsEvent::Measured(vec![], around(&places, true));
    assert_eq!(answer(get_options(&mut request, &mut cache, ahead)), (vec![], false));
}

#[test]
fn no_turnaround_where_there_is_a_way_on() {
    let places = [(2, loc(1393, 0), 0), (3, loc(-1393, 0), 180 * DEG)];
    let mut cache = OptionCache::new(64);
    let mut request = OptionsRequest::new(cur(), 0, true, false);
    assert_eq!(asked_heading(get_options(&mut request, &mut cache, OptionsEvent::Begin)), 0);
    let ahead = OptionsEvent::Measured(vec![], around(&places, true));
    assert_eq!(answer(get_options(&mut request, &mut cache, ahead)), (vec![(2, 0)], false));
    // the cache was not in use
    let mut request = OptionsRequest::new(cur(), 0, true, true);
    assert_eq!(asked_heading(get_options(&mut request, &mut cache, OptionsEvent::Begin)), 0);
}

#[test]
fn a_turnaround_with_nothing_behind_gives_no_way_on() {
    let mut cache = OptionCache::new(64);
    let mut request = OptionsRequest::new(cur(), 90 * DEG, true, true);
    assert_eq!(
        asked_heading(get_options(&mut request, &mut cache, OptionsEvent::Begin)),
        90 * DEG
    );
    let ahead = OptionsEvent::Measured(vec![], around(&[], true));
    assert_eq!(asked_heading(get_options(&mut request, &mut cache, ahead)), 270 * DEG);
    let behind = OptionsEvent::Measured(vec![], around(&[], false));
    assert_eq!(answer(get_options(&mut request, &mut cache, behind)), (vec![], true));
    assert!(matches!(
        get_options(&mut request, &mut cache, OptionsEvent::Measured(vec![], around(&[], true))),
        OptionsAction::OutOfTurn
    ));
}

#[test]
fn the_option_cache_does_not_change_the_answer() {
    let s = around(&[(2, loc(1393, 0), 0), (3, loc(0, 1393), 90 * DEG)], true);
    let links = vec![link(4, 300 * DEG)];
    let computed = get_options_no_turnaround(&cur(), 0, &links, &s);

    let mut cache = OptionCache::new(64);
    assert!(cache.lookup(&cur(), 0, true).is_none());
    cache.store(&cur(), 0, true, &computed);
    let cached = cache.lookup(&cur(), 0, true).unwrap();
    assert_eq!(described(&cached.options), described(&computed.options));
    assert_eq!(described(&cached.options), vec![(4, 300 * DEG), (2, 0), (3, 90 * DEG)]);

    // another heading or another panorama is another entry
    assert!(cache.lookup(&cur(), 1, true).is_none());
    assert!(cache.lookup(&Pano { id: PanoId(2), loc: loc(0, 0) }, 0, true).is_none());
    // a cache that is not in use gives and takes nothing
    assert!(cache.lookup(&cur(), 0, false).is_none());
    let mut unused = OptionCache::new(64);
    unused.store(&cur(), 0, false, &computed);
    assert!(unused.lookup(&cur(), 0, true).is_none());
}

#[test]
fn the_option_cache_keeps_the_latest_answer() {
    let mut cache = OptionCache::new(64);
    cache.store(&cur(), 0, true, &BasePanoOptionsRes { options: vec![link(2, 0)] });
    cache.store(&cur(), 0, true, &BasePanoOptionsRes { options: vec![link(3, 5)] });
    assert_eq!(described(&cache.lookup(&cur(), 0, true).unwrap().options), vec![(3, 5)]);
}

#[test]
fn links_become_ways_on_with_headings_in_microdegrees() {
    let links = vec![
        PanoLink { pano: cur(), heading: 12.5f32.to_bits() },
        PanoLink { pano: Pano { id: PanoId(2), loc: loc(3, 4) }, heading: f32::NAN.to_bits() },
        PanoLink { pano: Pano { id: PanoId(3), loc: loc(5, 6) }, heading: 359.0f32.to_bits() },
    ];
    let options = links_as_options(&links);
    assert_eq!(described(&options), vec![(1, 12_500_000), (3, 359_000_000)]);
    assert_eq!(options[1].pano.loc, loc(5, 6));
}
