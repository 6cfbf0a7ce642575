//! A request for a path over several stops: its limits, its segments, and
//! the progress of the whole made of the progress of the segments.

use vstd::prelude::*;
use crate::astar::Cost;
use crate::astar::MAX_HEURISTIC_FACTOR;
use crate::astar::MIN_HEURISTIC_FACTOR;
use crate::model::Location;
use crate::FullProgressUpdate;
use crate::ProgressUpdate;
use crate::ALL_DONE;

verus! {

/// The greatest number of waypoints of a request: the stops and the
/// destination, which is the last waypoint.
pub const MAX_WAYPOINTS: usize = 200;

/// The greatest length of a path along its stops, in millimetres: 1,000 km.
pub const MAX_TOTAL_DISTANCE: u64 = 1_000_000_000;

/// The pause between two updates, in milliseconds.
pub const UPDATE_INTERVAL_MILLIS: u64 = 100;

/// Why a request for a path is turned down.
#[derive(Clone, Copy, Debug, PartialEq, Eq, Structural)]
pub enum PathError {
    /// More than `MAX_WAYPOINTS` waypoints, the destination among them.
    TooManyWaypoints,
    /// The path along the stops is longer than `MAX_TOTAL_DISTANCE`; it is
    /// this many whole kilometres long.
    TooLong(u32),
}

/// The heuristic factor asked for, brought into the range allowed.
pub fn clamp_heuristic_factor(asked: u32) -> (factor: u32)
    ensures
        MIN_HEURISTIC_FACTOR <= factor <= MAX_HEURISTIC_FACTOR,
        factor == if asked < MIN_HEURISTIC_FACTOR {
            MIN_HEURISTIC_FACTOR
        } else if asked > MAX_HEURISTIC_FACTOR {
            MAX_HEURISTIC_FACTOR
        } else {
            asked
        },
{
    if asked < MIN_HEURISTIC_FACTOR {
        MIN_HEURISTIC_FACTOR
    } else if asked > MAX_HEURISTIC_FACTOR {
        MAX_HEURISTIC_FACTOR
    } else {
        asked
    }
}

/// Turns down a request with too many waypoints. `stop_count` is the number
/// of stops before the destination, so the request has one waypoint more.
pub fn check_waypoints(stop_count: usize) -> (res: Result<(), PathError>)
    ensures
        res == if stop_count + 1 > 200 {
            Err::<(), PathError>(PathError::TooManyWaypoints)
        } else {
            Ok(())
        },
{
    if stop_count >= MAX_WAYPOINTS {
        Err(PathError::TooManyWaypoints)
    } else {
        Ok(())
    }
}

/// The radius, in millimetres, within which the `attempt`-th search for a
/// panorama near a stop looks: 100 m, 500 m, 1 km and 2 km, and none after
/// these.
pub fn snap_distance(attempt: usize) -> (radius: Option<u64>)
    ensures
        radius == if attempt == 0 {
            Some(100_000u64)
        } else if attempt == 1 {
            Some(500_000u64)
        } else if attempt == 2 {
            Some(1_000_000u64)
        } else if attempt == 3 {
            Some(2_000_000u64)
        } else {
            None
        },
{
    if attempt == 0 {
        Some(100_000)
    } else if attempt == 1 {
        Some(500_000)
    } else if attempt == 2 {
        Some(1_000_000)
    } else if attempt == 3 {
        Some(2_000_000)
    } else {
        None
    }
}

/// The sum of the first `count` lengths.
pub open spec fn length_of(legs: Seq<u64>, count: int) -> int
    decreases count,
{
    if count <= 0 {
        0
    } else {
        length_of(legs, count - 1) + legs[count - 1]
    }
}

/// Turns down a request whose path along the stops is too long. `legs`
/// holds the great-circle length of each leg in millimetres. Returns the
/// length of the whole.
pub fn check_distance(legs: &Vec<u64>) -> (res: Result<u64, PathError>)
    ensures
        match res {
            Ok(total) => total == length_of(legs@, legs@.len() as int) && total
                <= MAX_TOTAL_DISTANCE,
            Err(e) => length_of(legs@, legs@.len() as int) > MAX_TOTAL_DISTANCE && (length_of(
                legs@,
                legs@.len() as int,
            ) / 1_000_000 <= u32::MAX ==> e == PathError::TooLong(
                (length_of(legs@, legs@.len() as int) / 1_000_000) as u32,
            )) && (length_of(legs@, legs@.len() as int) / 1_000_000 > u32::MAX ==> e
                == PathError::TooLong(u32::MAX)),
        },
{
    let mut total: u128 = 0;
    let mut i: usize = 0;
    while i < legs.len()
        invariant
            i <= legs@.len(),
            total == length_of(legs@, i as int),
            total <= i * 0xffff_ffff_ffff_ffff,
        decreases legs@.len() - i,
    {
        assert((i + 1) * 0xffff_ffff_ffff_ffff <= 0xffff_ffff_ffff_ffff * 0xffff_ffff_ffff_ffff)
            by (nonlinear_arith)
            requires
                i + 1 <= 0xffff_ffff_ffff_ffff,
        ;
        total = total + legs[i] as u128;
        i = i + 1;
    }
    if total > MAX_TOTAL_DISTANCE as u128 {
        let km: u128 = total / 1_000_000;
        return Err(
            PathError::TooLong(
                if km > u32::MAX as u128 {
                    u32::MAX
                } else {
                    km as u32
                },
            ),
        );
    }
    Ok(total as u64)
}

/// One search of a request: from a stop to the next.
#[derive(Clone, Copy, Debug, PartialEq, Eq, Structural)]
pub struct Segment {
    pub from: Location,
    pub to: Location,
    /// The heading to start with, in microdegrees.
    pub heading: i32,
    /// Whether the segment starts at the panorama that the request names.
    pub from_start_pano: bool,
}

/// The `i`-th segment of a request: from the stop before to the `i`-th stop.
/// The first starts with the heading asked for, any other with the bearing of
/// the leg before it, or with the heading asked for where that is not given.
pub open spec fn segment_at(
    start: Location,
    heading: i32,
    stops: Seq<Location>,
    bearings: Seq<i32>,
    i: int,
) -> Segment {
    Segment {
        from: if i == 0 {
            start
        } else {
            stops[i - 1]
        },
        to: stops[i],
        heading: if i == 0 || i - 1 >= bearings.len() {
            heading
        } else {
            bearings[i - 1]
        },
        from_start_pano: i == 0,
    }
}

/// The searches of a request, one for each stop, the end being the last
/// stop. `bearings` holds the bearing of each leg but the last.
pub fn plan_segments(start: Location, heading: i32, stops: &Vec<Location>, bearings: &Vec<i32>) -> (segments:
    Vec<Segment>)
    ensures
        segments@ == Seq::new(
            stops@.len(),
            |i: int| segment_at(start, heading, stops@, bearings@, i),
        ),
{
    let mut segments: Vec<Segment> = Vec::new();
    let mut cur = start;
    let mut i: usize = 0;
    while i < stops.len()
        invariant
            i <= stops@.len(),
            cur == if i == 0 {
                start
            } else {
                stops@[i - 1]
            },
            segments@ == Seq::new(
                i as nat,
                |k: int| segment_at(start, heading, stops@, bearings@, k),
            ),
        decreases stops@.len() - i,
    {
        let assumed_heading = if i == 0 || i - 1 >= bearings.len() {
            heading
        } else {
            bearings[i - 1]
        };
        segments.push(
            Segment { from: cur, to: stops[i], heading: assumed_heading, from_start_pano: i == 0 },
        );
        cur = stops[i];
        i = i + 1;
        proof {
            assert(segments@ =~= Seq::new(
                i as nat,
                |k: int| segment_at(start, heading, stops@, bearings@, k),
            ));
        }
    }
    segments
}

/// The change from the path sent before to the new one: how many points of
/// the old path to keep, and the points to put after them.
pub fn find_path_prefix_and_append(old_path: &Vec<Location>, new_path: &Vec<Location>) -> (change: (
    usize,
    Vec<Location>,
))
    ensures
        change.0 <= old_path@.len(),
        change.0 <= new_path@.len(),
        forall|i: int| 0 <= i < change.0 ==> old_path@[i] == new_path@[i],
        change.0 < old_path@.len() && change.0 < new_path@.len() ==> old_path@[change.0 as int]
            != new_path@[change.0 as int],
        change.1@ == new_path@.skip(change.0 as int),
        old_path@.take(change.0 as int) + change.1@ == new_path@,
{
    let mut prefix_len: usize = 0;
    while prefix_len < old_path.len() && prefix_len < new_path.len() && old_path[prefix_len]
        == new_path[prefix_len]
        invariant
            prefix_len <= old_path@.len(),
            prefix_len <= new_path@.len(),
            forall|i: int| 0 <= i < prefix_len ==> old_path@[i] == new_path@[i],
        decreases old_path@.len() - prefix_len,
    {
        prefix_len = prefix_len + 1;
    }
    let mut to_append: Vec<Location> = Vec::new();
    let mut i: usize = prefix_len;
    while i < new_path.len()
        invariant
            prefix_len <= i <= new_path@.len(),
            to_append@ == new_path@.subrange(prefix_len as int, i as int),
        decreases new_path@.len() - i,
    {
        to_append.push(new_path[i]);
        i = i + 1;
        proof {
            assert(to_append@ =~= new_path@.subrange(prefix_len as int, i as int));
        }
    }
    proof {
        assert(to_append@ =~= new_path@.skip(prefix_len as int));
        assert(old_path@.take(prefix_len as int) + to_append@ =~= new_path@);
    }
    (prefix_len, to_append)
}

/// Whether slot `i` counts toward the cost and the paths of the whole:
/// every slot before it is finished.
pub open spec fn contributes(slots: Seq<ProgressUpdate>, i: int) -> bool {
    forall|j: int| 0 <= j < i ==> (#[trigger] slots[j]).percent_done >= 1_000_000
}

/// The least share done among the first `count` slots, and no more than
/// all.
pub open spec fn lowest_done(slots: Seq<ProgressUpdate>, count: int) -> int
    decreases count,
{
    if count <= 0 {
        1_000_000
    } else if slots[count - 1].percent_done < lowest_done(slots, count - 1) {
        slots[count - 1].percent_done as int
    } else {
        lowest_done(slots, count - 1)
    }
}

/// The greatest time remaining among the first `count` slots, and no less
/// than none.
pub open spec fn highest_remaining(slots: Seq<ProgressUpdate>, count: int) -> int
    decreases count,
{
    if count <= 0 {
        0
    } else if slots[count - 1].estimated_seconds_remaining > highest_remaining(slots, count - 1) {
        slots[count - 1].estimated_seconds_remaining as int
    } else {
        highest_remaining(slots, count - 1)
    }
}

/// The nodes considered by the first `count` slots together.
pub open spec fn nodes_sum(slots: Seq<ProgressUpdate>, count: int) -> int
    decreases count,
{
    if count <= 0 {
        0
    } else {
        nodes_sum(slots, count - 1) + slots[count - 1].nodes_considered
    }
}

/// The cost of the best paths of those of the first `count` slots that count.
pub open spec fn cost_sum(slots: Seq<ProgressUpdate>, count: int) -> int
    decreases count,
{
    if count <= 0 {
        0
    } else if contributes(slots, count - 1) {
        cost_sum(slots, count - 1) + slots[count - 1].best_path_cost
    } else {
        cost_sum(slots, count - 1)
    }
}

/// The best paths of those of the first `count` slots that count, one after
/// the other.
pub open spec fn best_paths(slots: Seq<ProgressUpdate>, count: int) -> Seq<Location>
    decreases count,
{
    if count <= 0 {
        Seq::empty()
    } else if contributes(slots, count - 1) {
        best_paths(slots, count - 1) + slots[count - 1].best_path@
    } else {
        best_paths(slots, count - 1)
    }
}

/// The current paths of those of the first `count` slots that count, one
/// after the other.
pub open spec fn current_paths(slots: Seq<ProgressUpdate>, count: int) -> Seq<Location>
    decreases count,
{
    if count <= 0 {
        Seq::empty()
    } else if contributes(slots, count - 1) {
        current_paths(slots, count - 1) + slots[count - 1].current_path@
    } else {
        current_paths(slots, count - 1)
    }
}

proof fn lemma_sums_are_natural(slots: Seq<ProgressUpdate>, count: int)
    ensures
        nodes_sum(slots, count) >= 0,
        cost_sum(slots, count) >= 0,
    decreases count,
{
    if count > 0 {
        lemma_sums_are_natural(slots, count - 1);
    }
}

fn extend_path(path: &mut Vec<Location>, more: &Vec<Location>)
    ensures
        final(path)@ == old(path)@ + more@,
{
    let mut i: usize = 0;
    while i < more.len()
        invariant
            i <= more@.len(),
            path@ == old(path)@ + more@.take(i as int),
        decreases more@.len() - i,
    {
        path.push(more[i]);
        i = i + 1;
        proof {
            assert(path@ =~= old(path)@ + more@.take(i as int));
        }
    }
    proof {
        assert(more@.take(more@.len() as int) =~= more@);
    }
}

/// The progress of a whole request, made of the progress of its searches in
/// order: the least share done, the greatest time remaining, the nodes of
/// all, and the cost and the paths of the searches up to the first one that
/// is not finished, that one included. Sums beyond the range of the result
/// are given as the greatest value.
pub fn merge_progress(slots: &Vec<ProgressUpdate>) -> (merged: ProgressUpdate)
    ensures
        merged.percent_done == lowest_done(slots@, slots@.len() as int),
        merged.estimated_seconds_remaining == highest_remaining(slots@, slots@.len() as int),
        merged.nodes_considered == if nodes_sum(slots@, slots@.len() as int) > usize::MAX {
            usize::MAX as int
        } else {
            nodes_sum(slots@, slots@.len() as int)
        },
        merged.best_path_cost == if cost_sum(slots@, slots@.len() as int) > u64::MAX {
            u64::MAX as int
        } else {
            cost_sum(slots@, slots@.len() as int)
        },
        merged.best_path@ == best_paths(slots@, slots@.len() as int),
        merged.current_path@ == current_paths(slots@, slots@.len() as int),
{
    let mut reached_unfinished_path = false;
    let mut lowest_percent_done: i32 = ALL_DONE;
    let mut highest_estimated_seconds_remaining: i64 = 0;
    let mut best_path_cost: Cost = 0;
    let mut nodes_considered: usize = 0;
    let mut combined_best_path: Vec<Location> = Vec::new();
    let mut combined_current_path: Vec<Location> = Vec::new();
    let mut i: usize = 0;
    while i < slots.len()
        invariant
            i <= slots@.len(),
            reached_unfinished_path == !contributes(slots@, i as int),
            lowest_percent_done == lowest_done(slots@, i as int),
            highest_estimated_seconds_remaining == highest_remaining(slots@, i as int),
            nodes_considered == if nodes_sum(slots@, i as int) > usize::MAX {
                usize::MAX as int
            } else {
                nodes_sum(slots@, i as int)
            },
            best_path_cost == if cost_sum(slots@, i as int) > u64::MAX {
                u64::MAX as int
            } else {
                cost_sum(slots@, i as int)
            },
            combined_best_path@ == best_paths(slots@, i as int),
            combined_current_path@ == current_paths(slots@, i as int),
        decreases slots@.len() - i,
    {
        let progress = &slots[i];
        proof {
            lemma_sums_are_natural(slots@, i as int);
        }
        if progress.percent_done < lowest_percent_done {
            lowest_percent_done = progress.percent_done;
        }
        if progress.estimated_seconds_remaining > highest_estimated_seconds_remaining {
            highest_estimated_seconds_remaining = progress.estimated_seconds_remaining;
        }
        nodes_considered = nodes_considered.saturating_add(progress.nodes_considered);
        if !reached_unfinished_path {
            best_path_cost = best_path_cost.saturating_add(progress.best_path_cost);
            extend_path(&mut combined_best_path, &progress.best_path);
            extend_path(&mut combined_current_path, &progress.current_path);
        }
        if progress.percent_done < ALL_DONE {
            reached_unfinished_path = true;
            assert(!contributes(slots@, i + 1)) by {
                assert(slots@[i as int].percent_done < 1_000_000);
            }
        } else {
            assert(contributes(slots@, i + 1) == contributes(slots@, i as int)) by {
                if contributes(slots@, i as int) {
                    assert forall|j: int| 0 <= j < i + 1 implies (#[trigger] slots@[j]).percent_done
                        >= 1_000_000 by {}
                }
            }
        }
        i = i + 1;
    }
    ProgressUpdate {
        percent_done: lowest_percent_done,
        estimated_seconds_remaining: highest_estimated_seconds_remaining,
        best_path_cost,
        nodes_considered,
        best_path: combined_best_path,
        current_path: combined_current_path,
    }
}

/// The update to send for request `id`: the progress of the whole, with
/// each path as a change against the path sent before.
pub fn full_update(
    id: u32,
    merged: &ProgressUpdate,
    elapsed_seconds: u64,
    last_best_path: &Vec<Location>,
    last_current_path: &Vec<Location>,
) -> (update: FullProgressUpdate)
    ensures
        update.id == id,
        update.percent_done == merged.percent_done,
        update.estimated_seconds_remaining == merged.estimated_seconds_remaining,
        update.best_path_cost == merged.best_path_cost,
        update.nodes_considered == merged.nodes_considered,
        update.elapsed_seconds == elapsed_seconds,
        update.best_path_keep_prefix_length <= last_best_path@.len(),
        last_best_path@.take(update.best_path_keep_prefix_length as int) + update.best_path_append@
            == merged.best_path@,
        update.best_path_keep_prefix_length < last_best_path@.len()
            && update.best_path_keep_prefix_length < merged.best_path@.len()
            ==> last_best_path@[update.best_path_keep_prefix_length as int]
            != merged.best_path@[update.best_path_keep_prefix_length as int],
        update.current_path_keep_prefix_length <= last_current_path@.len(),
        last_current_path@.take(update.current_path_keep_prefix_length as int)
            + update.current_path_append@ == merged.current_path@,
        update.current_path_keep_prefix_length < last_current_path@.len()
            && update.current_path_keep_prefix_length < merged.current_path@.len()
            ==> last_current_path@[update.current_path_keep_prefix_length as int]
            != merged.current_path@[update.current_path_keep_prefix_length as int],
{
    let (best_path_keep_prefix_length, best_path_append) = find_path_prefix_and_append(
        last_best_path,
        &merged.best_path,
    );
    let (current_path_keep_prefix_length, current_path_append) = find_path_prefix_and_append(
        last_current_path,
        &merged.current_path,
    );
    FullProgressUpdate {
        id,
        percent_done: merged.percent_done,
        estimated_seconds_remaining: merged.estimated_seconds_remaining,
        best_path_cost: merged.best_path_cost,
        nodes_considered: merged.nodes_considered,
        elapsed_seconds,
        best_path_keep_prefix_length,
        best_path_append,
        current_path_keep_prefix_length,
        current_path_append,
    }
}

/// The least share done among the slots never goes down while no slot's
/// share goes down.
pub proof fn lemma_lowest_done_is_monotonic(
    before: Seq<ProgressUpdate>,
    after: Seq<ProgressUpdate>,
    count: int,
)
    requires
        0 <= count <= before.len(),
        before.len() == after.len(),
        forall|i: int|
            0 <= i < before.len() ==> (#[trigger] before[i]).percent_done <= after[i].percent_done,
    ensures
        lowest_done(before, count) <= lowest_done(after, count),
    decreases count,
{
    if count > 0 {
        lemma_lowest_done_is_monotonic(before, after, count - 1);
        assert(before[count - 1].percent_done <= after[count - 1].percent_done);
    }
}

} // verus!
