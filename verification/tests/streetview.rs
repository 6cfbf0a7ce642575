use std::sync::Arc;

use internet_roadtrip_pathfinder::db::encode_listentityphotos;
use internet_roadtrip_pathfinder::math::angle::Angle;
use internet_roadtrip_pathfinder::model::Location;
use internet_roadtrip_pathfinder::model::Pano;
use internet_roadtrip_pathfinder::model::PanoId;
use internet_roadtrip_pathfinder::model::PanoWithBothLocations;
use internet_roadtrip_pathfinder::model::SizedTile;
use internet_roadtrip_pathfinder::model::SmallTile;
use internet_roadtrip_pathfinder::model::TileBounds;
use internet_roadtrip_pathfinder::streetview::calculate_lat_bounds;
use internet_roadtrip_pathfinder::streetview::calculate_tile_bounds;
use internet_roadtrip_pathfinder::streetview::fetch_actual_locations_for_panos;
use internet_roadtrip_pathfinder::streetview::filter_panos_at_tile_into;
use internet_roadtrip_pathfinder::streetview::get_getmetadata_links;
use internet_roadtrip_pathfinder::streetview::get_nearest_pano_in_array;
use internet_roadtrip_pathfinder::streetview::is_cache_reset_due;
use internet_roadtrip_pathfinder::streetview::is_sorted_by_lat;
use internet_roadtrip_pathfinder::streetview::lat_band;
use internet_roadtrip_pathfinder::streetview::tile_cache::TileAction;
use internet_roadtrip_pathfinder::streetview::tile_cache::TileCache;
use internet_roadtrip_pathfinder::streetview::tile_cache::TileEvent;
use internet_roadtrip_pathfinder::streetview::tile_cache::TileSearch;
use internet_roadtrip_pathfinder::streetview::NearbySearch;

fn loc(lat: i32, lng: i32) -> Location {
    Location::new(Angle::from_bits(lat), Angle::from_bits(lng))
}

fn pano(id: u32, lat: i32, lng: i32) -> PanoWithBothLocations {
    PanoWithBothLocations { id: PanoId(id), search_loc: loc(lat, lng), actual_loc: loc(lat + 1, lng + 1) }
}

fn ids(panos: &[PanoWithBothLocations]) -> Vec<u32> {
    panos.iter().map(|p| p.id.0).collect()
}

#[test]
fn latitude_band_is_one_percent_wider_than_the_radius() {
    assert_eq!(lat_band(82_000), Angle::from_bits(8_876));
    assert_eq!(lat_band(500_000), Angle::from_bits(54_122));
    assert_eq!(lat_band(0), Angle::from_bits(0));
    assert_eq!(lat_band(u64::MAX), Angle::from_bits(i32::MAX));
    assert_eq!(
        calculate_lat_bounds(loc(1_000_000, 5), 82_000),
        (Angle::from_bits(991_124), Angle::from_bits(1_008_876))
    );
}

#[test]
fn tile_bounds_take_least_and_greatest_coordinates() {
    let a = SmallTile { x: 10, y: 3 };
    let b = SmallTile { x: 7, y: 9 };
    assert_eq!(calculate_tile_bounds(a, b), (SmallTile { x: 7, y: 3 }, SmallTile { x: 10, y: 9 }));
    assert_eq!(calculate_tile_bounds(b, a), (SmallTile { x: 7, y: 3 }, SmallTile { x: 10, y: 9 }));
}

#[test]
fn order_of_latitude_is_recognized() {
    assert!(is_sorted_by_lat(&vec![]));
    assert!(is_sorted_by_lat(&vec![pano(1, -5, 0), pano(2, -5, 9), pano(3, 7, 0)]));
    assert!(!is_sorted_by_lat(&vec![pano(1, -5, 0), pano(2, 8, 9), pano(3, 7, 0)]));
}

#[test]
fn a_tile_is_searched_within_the_band_and_the_radius() {
    let center = loc(0, 0);
    // 1000 angle units of latitude are 9321 mm by the lower estimate
    let panos = vec![
        pano(1, -2000, 0),
        pano(2, -1000, 0),
        pano(3, -1000, 5000),
        pano(4, 0, 0),
        pano(5, 500, 0),
        pano(6, 1000, 0),
        pano(7, 1001, 0),
        pano(8, 3000, 0),
    ];
    let mut found = vec![pano(99, 0, 0)];
    filter_panos_at_tile_into(
        center,
        &panos,
        Angle::from_bits(-1000),
        Angle::from_bits(1000),
        10_000,
        80_000_000,
        &mut found,
    );
    assert_eq!(ids(&found), vec![99, 2, 4, 5, 6]);

    let mut found = vec![];
    filter_panos_at_tile_into(
        center,
        &panos,
        Angle::from_bits(-5000),
        Angle::from_bits(5000),
        9_321,
        80_000_000,
        &mut found,
    );
    assert_eq!(ids(&found), vec![2, 4, 5, 6]);

    let mut found = vec![];
    filter_panos_at_tile_into(
        center,
        &panos,
        Angle::from_bits(10),
        Angle::from_bits(-10),
        1_000_000,
        80_000_000,
        &mut found,
    );
    assert_eq!(ids(&found), Vec::<u32>::new());
}

#[test]
fn the_nearest_pano_is_the_first_of_least_estimate() {
    let panos = vec![pano(1, 3000, 0), pano(2, -1000, 0), pano(3, 1000, 0), pano(4, 5000, 0)];
    let nearest = get_nearest_pano_in_array(&panos, loc(0, 0), None, 80_000_000, &vec![]).unwrap();
    assert_eq!(nearest.id, PanoId(2));
    assert_eq!(nearest.loc, loc(-999, 1));
    assert!(get_nearest_pano_in_array(&vec![], loc(0, 0), None, 80_000_000, &vec![]).is_none());
}

#[test]
fn the_nearest_pano_within_a_radius_goes_by_measured_distance() {
    let panos = vec![pano(1, 3000, 0), pano(2, -1000, 0), pano(3, 1000, 0), pano(4, 5000, 0)];
    let measured = vec![27_000, 9_400, 9_350, 46_000];
    let nearest =
        get_nearest_pano_in_array(&panos, loc(0, 0), Some(30_000), 80_000_000, &measured).unwrap();
    assert_eq!(nearest.id, PanoId(3));
    assert!(
        get_nearest_pano_in_array(&panos, loc(0, 0), Some(9_000), 80_000_000, &measured).is_none()
    );
    // passes the planar check but is measured beyond the radius
    let measured = vec![27_000, 9_400, 9_350, 46_000];
    let nearest =
        get_nearest_pano_in_array(&panos, loc(0, 0), Some(9_360), 80_000_000, &measured).unwrap();
    assert_eq!(nearest.id, PanoId(3));
}

#[test]
fn true_locations_come_from_the_metadata_where_known() {
    let panos = vec![
        Pano { id: PanoId(1), loc: loc(1, 1) },
        Pano { id: PanoId(2), loc: loc(2, 2) },
    ];
    let located = fetch_actual_locations_for_panos(&panos, &vec![Some(loc(9, 9)), None]);
    assert_eq!(located.len(), 2);
    assert_eq!(located[0].search_loc, loc(1, 1));
    assert_eq!(located[0].actual_loc, loc(9, 9));
    assert_eq!(located[1].search_loc, loc(2, 2));
    assert_eq!(located[1].actual_loc, loc(2, 2));
}

fn expect_lookup(action: TileAction, size: u8) -> SizedTile {
    match action {
        TileAction::Lookup(tile) => {
            assert_eq!(tile.size, size);
            tile
        }
        _ => panic!("expected a lookup at zoom {size}"),
    }
}

fn expect_fetch(action: TileAction, size: u8) {
    match action {
        TileAction::Fetch(tile) => assert_eq!(tile.size, size),
        _ => panic!("expected a fetch at zoom {size}"),
    }
}

fn expect_done(action: TileAction, size: u8, expected: &[u32]) {
    match action {
        TileAction::Done(tile, panos) => {
            assert_eq!(tile.size, size);
            assert_eq!(ids(&panos), expected);
        }
        _ => panic!("expected the search to end at zoom {size}"),
    }
}

#[test]
fn a_coarse_tile_that_lists_few_answers_for_its_small_tiles() {
    let mut cache = TileCache::new(64);
    let base = SmallTile { x: 19_003, y: 23_006 };
    let mut search = TileSearch::new(base);
    let tile = expect_lookup(search.step(&mut cache, TileEvent::Begin), 13);
    assert_eq!(tile, SizedTile { size: 13, x: 2_375, y: 2_875 });
    expect_fetch(search.step(&mut cache, TileEvent::Row(None)), 13);
    let fetched = vec![pano(1, 0, 0), pano(2, 1, 0)];
    expect_done(search.step(&mut cache, TileEvent::Fetched(Some(fetched))), 13, &[1, 2]);

    // another small tile under the same coarse tile is answered from the cache
    let sibling = SmallTile { x: 19_000, y: 23_000 };
    let mut search = TileSearch::new(sibling);
    expect_done(search.step(&mut cache, TileEvent::Begin), 13, &[1, 2]);
}

#[test]
fn tiles_that_hold_too_many_are_passed_over() {
    let mut cache = TileCache::new(64);
    let base = SmallTile { x: 19_003, y: 23_006 };
    let mut search = TileSearch::new(base);
    expect_lookup(search.step(&mut cache, TileEvent::Begin), 13);
    // the table marks zoom 13 as too many
    expect_lookup(search.step(&mut cache, TileEvent::Row(Some(vec![0]))), 14);
    expect_fetch(search.step(&mut cache, TileEvent::Row(None)), 14);
    // the provider lists too many at zoom 14
    expect_lookup(search.step(&mut cache, TileEvent::Fetched(None)), 15);
    let row = encode_listentityphotos(Some(&vec![pano(7, 5, 5)]));
    expect_done(search.step(&mut cache, TileEvent::Row(Some(row))), 15, &[7]);

    // the next search skips zoom 13 by the cache, asks again for zoom 14,
    // which is not in the cache, and finds zoom 15 there
    let mut search = TileSearch::new(base);
    expect_lookup(search.step(&mut cache, TileEvent::Begin), 14);
    expect_done(search.step(&mut cache, TileEvent::Row(Some(vec![0]))), 15, &[7]);
}

#[test]
fn a_search_runs_out_when_every_zoom_holds_too_many() {
    let mut cache = TileCache::new(64);
    let mut search = TileSearch::new(SmallTile { x: 1, y: 1 });
    expect_lookup(search.step(&mut cache, TileEvent::Begin), 13);
    expect_lookup(search.step(&mut cache, TileEvent::Row(Some(vec![0]))), 14);
    expect_lookup(search.step(&mut cache, TileEvent::Row(Some(vec![0]))), 15);
    expect_lookup(search.step(&mut cache, TileEvent::Row(Some(vec![0]))), 16);
    assert!(matches!(search.step(&mut cache, TileEvent::Row(Some(vec![0]))), TileAction::Exhausted));
    assert!(matches!(search.step(&mut cache, TileEvent::Row(None)), TileAction::Exhausted));
}

#[test]
fn a_row_that_cannot_be_read_stops_the_search() {
    let mut cache = TileCache::new(64);
    let mut search = TileSearch::new(SmallTile { x: 1, y: 1 });
    expect_lookup(search.step(&mut cache, TileEvent::Begin), 13);
    assert!(matches!(search.step(&mut cache, TileEvent::Row(Some(vec![1, 2, 3]))), TileAction::Corrupt));
    assert!(matches!(search.step(&mut cache, TileEvent::Row(Some(vec![]))), TileAction::Corrupt));
}

#[test]
fn the_tile_cache_gives_back_what_was_stored() {
    let mut cache = TileCache::new(64);
    let tile = SizedTile { size: 14, x: 3, y: 4 };
    let other = SizedTile { size: 15, x: 3, y: 4 };
    assert!(cache.get(&tile).is_none());
    cache.insert(&tile, Some(Arc::new(vec![pano(5, 0, 0)])));
    cache.insert(&other, None);
    assert_eq!(cache.get(&tile).unwrap().map(|p| ids(&p)), Some(vec![5]));
    assert!(cache.get(&other).unwrap().is_none());
    cache.remove(&tile);
    assert!(cache.get(&tile).is_none());
    assert!(cache.get(&other).is_some());
}

#[test]
fn a_query_goes_through_its_block_column_by_column() {
    let mut search = NearbySearch::new(
        loc(0, 0),
        82_000,
        80_000_000,
        SmallTile { x: 11, y: 21 },
        SmallTile { x: 12, y: 20 },
        SmallTile { x: 10, y: 21 },
    );
    let mut seen = vec![];
    while let Some(tile) = search.next_tile() {
        seen.push((tile.x, tile.y));
    }
    assert_eq!(seen, vec![(10, 20), (10, 21), (11, 20), (11, 21), (12, 20), (12, 21)]);
    assert_eq!(search.next_tile(), None);
}

#[test]
fn a_query_looks_at_its_own_tile_and_at_tiles_in_reach() {
    let origin = SmallTile { x: 11, y: 21 };
    let search = NearbySearch::new(loc(0, 0), 10_000, 80_000_000, origin, origin, origin);
    let far = TileBounds::from_corners(loc(5000, 5000), loc(6000, 6000));
    let near = TileBounds::from_corners(loc(1000, 0), loc(2000, 1000));
    let around = TileBounds::from_corners(loc(-10, -10), loc(10, 10));
    assert!(search.wants(&origin, &far));
    assert!(!search.wants(&SmallTile { x: 12, y: 21 }, &far));
    assert!(search.wants(&SmallTile { x: 12, y: 21 }, &near));
    assert!(search.wants(&SmallTile { x: 12, y: 21 }, &around));
}

#[test]
fn a_query_takes_each_answering_tile_once() {
    let origin = SmallTile { x: 11, y: 21 };
    let mut search = NearbySearch::new(loc(0, 0), 10_000, 80_000_000, origin, origin, origin);
    let winning = SizedTile { size: 13, x: 1, y: 2 };
    let panos = vec![pano(1, -2000, 0), pano(2, -500, 0), pano(3, 500, 0), pano(4, 2000, 0)];
    assert!(search.absorb(&winning, &panos));
    assert!(!search.absorb(&winning, &panos));
    assert!(!search.mark_checked(&winning));
    let other = SizedTile { size: 14, x: 1, y: 2 };
    assert!(search.absorb(&other, &vec![pano(9, 0, 0)]));
    assert_eq!(ids(&search.get_nearby_panos()), vec![2, 3, 9]);
}

#[test]
fn links_are_read_from_the_metadata_row() {
    let row = vec![
        1, 0, 0, 0, 2, 0, 0, 0, // location
        1, // one link
        7, 0, 0, 0, 0, 0, 0xb4, 0x42, 3, 0, 0, 0, 4, 0, 0, 0,
    ];
    let links = get_getmetadata_links(Some(&row)).unwrap();
    assert_eq!(links.len(), 1);
    assert_eq!(links[0].pano.id, PanoId(7));
    assert_eq!(links[0].heading, 0x42b4_0000);
    assert_eq!(links[0].pano.loc, loc(3, 4));
    assert!(get_getmetadata_links(None).is_none());
    assert!(get_getmetadata_links(Some(&row[..20])).is_none());
}

#[test]
fn the_cache_is_refreshed_every_three_minutes_at_most() {
    assert!(!is_cache_reset_due(0));
    assert!(!is_cache_reset_due(179));
    assert!(is_cache_reset_due(180));
    assert!(is_cache_reset_due(10_000));
}
