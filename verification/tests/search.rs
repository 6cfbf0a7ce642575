use internet_roadtrip_pathfinder::astar::search::Clock;
use internet_roadtrip_pathfinder::astar::search::Search;
use internet_roadtrip_pathfinder::astar::search::SearchAction;
use internet_roadtrip_pathfinder::astar::search::SearchEvent;
use internet_roadtrip_pathfinder::astar::Neighbor;
use internet_roadtrip_pathfinder::astar::NodeIdent;
use internet_roadtrip_pathfinder::astar::PathSettings;
use internet_roadtrip_pathfinder::math::angle::Angle;
use internet_roadtrip_pathfinder::model::Location;
use internet_roadtrip_pathfinder::model::Pano;
use internet_roadtrip_pathfinder::model::PanoId;
use internet_roadtrip_pathfinder::ALL_DONE;

const EQUATOR: u32 = 111_319_490;

fn node(id: u32, heading: i32) -> NodeIdent {
    NodeIdent {
        pano: Pano {
            id: PanoId(id),
            loc: Location::new(Angle::from_bits(id as i32), Angle::from_bits(0)),
        },
        heading,
    }
}

fn way(id: u32, heading: i32, goal_distance: u64) -> Neighbor {
    Neighbor { pano: node(id, heading).pano, heading, goal_distance }
}

fn begin() -> Search {
    Search::new(
        node(1, 90_000_000),
        100_000,
        PathSettings {
            heuristic_factor: 3300,
            no_long_jumps: false,
            use_option_cache: true,
            forward_penalty_on_intersections: 0,
        },
    )
}

fn soon() -> Clock {
    Clock { millis_since_update: 99, elapsed_millis: 99 }
}

fn late() -> Clock {
    Clock { millis_since_update: 100, elapsed_millis: 4_000 }
}

fn measured(action: SearchAction) -> u32 {
    match action {
        SearchAction::Measure(node) => node.pano.id.0,
        _ => panic!("expected a node to measure"),
    }
}

fn expanded(action: SearchAction) -> (u32, bool, bool) {
    match action {
        SearchAction::Expand(node, allow_turnaround, snapshot) => {
            (node.pano.id.0, allow_turnaround, snapshot.is_some())
        }
        _ => panic!("expected a node to expand"),
    }
}

#[test]
fn a_node_within_fifteen_metres_ends_the_search() {
    let mut search = begin();
    assert_eq!(measured(search.step(SearchEvent::Begin)), 1);
    // about 11.1 m east of the node
    match search.step(SearchEvent::Distance(11_132, soon())) {
        SearchAction::Found(path, update) => {
            assert_eq!(path.len(), 1);
            assert_eq!(path[0].pano.id, PanoId(1));
            assert_eq!(update.percent_done, ALL_DONE);
            assert_eq!(update.best_path_cost, 0);
            assert_eq!(update.nodes_considered, 1);
            assert_eq!(update.best_path.len(), 1);
        }
        _ => panic!("expected the search to end"),
    }
    assert!(matches!(search.step(SearchEvent::Begin), SearchAction::OutOfTurn));
}

#[test]
fn a_node_that_has_just_passed_the_goal_ends_the_search() {
    let mut search = begin();
    assert_eq!(measured(search.step(SearchEvent::Begin)), 1);
    // about 20 m east of the node: the point behind is asked for
    match search.step(SearchEvent::Distance(20_037, soon())) {
        SearchAction::MeasureBehind(node) => assert_eq!(node.pano.id, PanoId(1)),
        _ => panic!("expected the point behind to be measured"),
    }
    // heading 90°: the point behind the node is 15 m west, 35 m from the
    // goal, so the search goes on
    assert_eq!(expanded(search.step(SearchEvent::BehindDistance(35_037, soon()))), (1, true, false));

    let mut search = begin();
    search.step(SearchEvent::Begin);
    search.step(SearchEvent::Distance(20_037, soon()));
    // entered the other way round, the point behind is 5 m from the goal
    assert!(matches!(
        search.step(SearchEvent::BehindDistance(5_037, soon())),
        SearchAction::Found(_, _)
    ));
}

#[test]
fn thirty_metres_are_too_far_to_look_behind() {
    let mut search = begin();
    search.step(SearchEvent::Begin);
    assert_eq!(expanded(search.step(SearchEvent::Distance(30_000, soon()))), (1, true, false));
    let mut search = begin();
    search.step(SearchEvent::Begin);
    assert!(matches!(
        search.step(SearchEvent::Distance(29_999, soon())),
        SearchAction::MeasureBehind(_)
    ));
    let mut search = begin();
    search.step(SearchEvent::Begin);
    assert!(matches!(
        search.step(SearchEvent::Distance(15_000, soon())),
        SearchAction::MeasureBehind(_)
    ));
    let mut search = begin();
    search.step(SearchEvent::Begin);
    assert!(matches!(search.step(SearchEvent::Distance(14_999, soon())), SearchAction::Found(_, _)));
}

#[test]
fn the_first_turnaround_forbids_any_other() {
    let mut search = begin();
    search.step(SearchEvent::Begin);
    assert_eq!(expanded(search.step(SearchEvent::Distance(100_000, soon()))), (1, true, false));
    // the ways on were found by turning around
    let ways = vec![way(2, 270_000_000, 90_000)];
    assert_eq!(measured(search.step(SearchEvent::Options(ways, true, EQUATOR))), 2);
    assert_eq!(expanded(search.step(SearchEvent::Distance(90_000, soon()))), (2, false, false));
    let ways = vec![way(3, 270_000_000, 80_000)];
    assert_eq!(measured(search.step(SearchEvent::Options(ways, false, EQUATOR))), 3);
    assert_eq!(expanded(search.step(SearchEvent::Distance(80_000, soon()))), (3, false, false));
}

#[test]
fn a_search_without_ways_on_finds_no_path() {
    let mut search = begin();
    search.step(SearchEvent::Begin);
    search.step(SearchEvent::Distance(100_000, soon()));
    match search.step(SearchEvent::Options(vec![], false, EQUATOR)) {
        SearchAction::NoPath(update) => {
            assert_eq!(update.percent_done, ALL_DONE);
            assert_eq!(update.nodes_considered, 1);
            assert!(update.best_path.is_empty());
        }
        _ => panic!("expected the search to end without a path"),
    }
}

#[test]
fn a_snapshot_is_handed_out_when_it_is_due() {
    let mut search = begin();
    search.step(SearchEvent::Begin);
    search.step(SearchEvent::Distance(100_000, soon()));
    let ways = vec![way(2, 90_000_000, 50_000), way(3, 0, 90_000)];
    assert_eq!(measured(search.step(SearchEvent::Options(ways, false, EQUATOR))), 2);
    match search.step(SearchEvent::Distance(50_000, late())) {
        SearchAction::Expand(node, _, Some(update)) => {
            assert_eq!(node.pano.id, PanoId(2));
            assert_eq!(update.percent_done, 500_016);
            assert_eq!(update.estimated_seconds_remaining, 3);
            assert_eq!(update.best_path_cost, 9624);
            assert_eq!(update.nodes_considered, 2);
            assert_eq!(update.best_path.len(), 2);
            assert_eq!(update.current_path.len(), 2);
        }
        _ => panic!("expected a snapshot"),
    }
}

#[test]
fn a_stale_entry_is_passed_over() {
    let mut search = begin();
    search.step(SearchEvent::Begin);
    search.step(SearchEvent::Distance(100_000, soon()));
    // pano 2 is cheap to reach but far from the goal, pano 3 the other way
    let ways = vec![way(2, 90_000_000, 90_000), way(3, 0, 10_000)];
    assert_eq!(measured(search.step(SearchEvent::Options(ways, false, EQUATOR))), 3);
    search.step(SearchEvent::Distance(50_000, soon()));
    // pano 3 leads to pano 4 at 9625 + 5875
    let ways = vec![way(4, 0, 90_000)];
    assert_eq!(measured(search.step(SearchEvent::Options(ways, false, EQUATOR))), 2);
    search.step(SearchEvent::Distance(90_000, soon()));
    // pano 2 leads to pano 4 at 9624 + 5875, which is cheaper
    let ways = vec![way(4, 0, 90_000)];
    assert_eq!(measured(search.step(SearchEvent::Options(ways, false, EQUATOR))), 4);
    assert_eq!(expanded(search.step(SearchEvent::Distance(90_000, soon()))), (4, true, false));
    // the entry for the dearer path to pano 4 comes next and is dropped
    assert!(matches!(
        search.step(SearchEvent::Options(vec![], false, EQUATOR)),
        SearchAction::Measure(_)
    ));
    assert!(matches!(search.step(SearchEvent::Distance(90_000, soon())), SearchAction::NoPath(_)));
}

#[test]
fn an_event_out_of_turn_changes_nothing() {
    let mut search = begin();
    assert!(matches!(search.step(SearchEvent::Distance(5, soon())), SearchAction::OutOfTurn));
    assert!(matches!(
        search.step(SearchEvent::Options(vec![], false, EQUATOR)),
        SearchAction::OutOfTurn
    ));
    assert_eq!(measured(search.step(SearchEvent::Begin)), 1);
    assert!(matches!(search.step(SearchEvent::Begin), SearchAction::OutOfTurn));
    assert!(matches!(search.step(SearchEvent::BehindDistance(5, soon())), SearchAction::OutOfTurn));
    assert!(matches!(search.step(SearchEvent::Distance(5, soon())), SearchAction::Found(_, _)));
}
