//! The heading-aware shortest-path search.

use vstd::prelude::*;
use vstd::multiset::Multiset;
use vstd::std_specs::cmp::PartialEqSpecImpl;
use crate::astar::node_map::chain_back;
use crate::astar::node_map::cheaper_before;
use crate::astar::node_map::lemma_chain_ends_at_start;
use crate::astar::node_map::linked;
use crate::astar::node_map::relaxed;
use crate::astar::node_map::relaxed_index;
use crate::astar::node_map::NodeMap;
use crate::astar::node_map::NodeRecord;
use crate::astar::open_set::OpenSet;
use crate::math::calculate_heading_gap;
use crate::math::heading_gap;
use crate::math::is_at_least_within_radius;
use crate::math::underestimate_sqr;
use crate::model::Location;
use crate::model::Pano;
use crate::ProgressUpdate;
use crate::ALL_DONE;

pub mod node_map;
pub mod open_set;
pub mod search;

verus! {

/// Expected travel time in milliseconds.
pub type Cost = u64;

/// An entry of the open set: a node by its index, the cost of the path by
/// which it was reached, and that cost plus the estimate of what remains.
#[derive(Clone, Copy, Debug, PartialEq, Eq, Structural)]
pub struct WeightedNode {
    pub index: u32,
    pub g_score: Cost,
    pub f_score: Cost,
}

/// The `came_from` of the start node.
pub const SENTINEL: u32 = u32::MAX;

/// The identity of a search node: a panorama entered with a heading. Two
/// nodes are the same when their panorama ids and their headings are.
#[derive(Clone, Copy, Debug)]
pub struct NodeIdent {
    pub pano: Pano,
    /// In microdegrees.
    pub heading: i32,
}

impl NodeIdent {
    /// What a node is found by: the panorama id and the heading.
    pub open spec fn key(self) -> (u32, i32) {
        (self.pano.id.0, self.heading)
    }
}

impl PartialEq for NodeIdent {
    fn eq(&self, other: &Self) -> (r: bool) {
        self.pano.id.0 == other.pano.id.0 && self.heading == other.heading
    }
}

impl Eq for NodeIdent {

}

impl PartialEqSpecImpl for NodeIdent {
    open spec fn obeys_eq_spec() -> bool {
        true
    }

    open spec fn eq_spec(&self, other: &Self) -> bool {
        self.key() == other.key()
    }
}

/// What the search knows of a node.
#[derive(Clone, Copy, Debug, PartialEq, Eq, Structural)]
pub struct NodeData {
    /// The index of the node before this one on the cheapest known path, or
    /// `SENTINEL` for the start node.
    pub came_from: u32,
    /// The cost of the cheapest known path from the start to this node.
    pub g_score: Cost,
}

/// The least heuristic factor, in thousandths.
pub const MIN_HEURISTIC_FACTOR: u32 = 1000;

/// The heuristic factor to use when none is asked for, in thousandths.
pub const RECOMMENDED_HEURISTIC_FACTOR: u32 = 3300;

/// The greatest heuristic factor, in thousandths.
pub const MAX_HEURISTIC_FACTOR: u32 = 4000;

/// The cost of a step from a node with a single way on.
pub const SINGLE_OPTION_COST: Cost = 5875;

/// The cost of a step from a node with several ways on.
pub const MULTIPLE_OPTION_COST: Cost = 9625;

/// What the first of several ways on costs less than the others.
pub const FIRST_OPTION_BONUS: Cost = 1;

/// The heading difference, in microdegrees, beyond which a way on counts as
/// a turn and below which it counts as going forward.
pub const TURN_THRESHOLD: u32 = 30_000_000;

/// The longest step, in millimetres, that a search without long jumps takes.
pub const JUMP_LIMIT: u64 = 500_000;

/// A node counts as at the goal within this distance, in millimetres.
pub const GOAL_RADIUS: u64 = 15_000;

/// How a search is to be run.
#[derive(Clone, Copy, Debug)]
pub struct PathSettings {
    /// What the straight-line distance in metres is divided by to estimate
    /// the remaining seconds, in thousandths.
    pub heuristic_factor: u32,
    /// Whether steps longer than `JUMP_LIMIT` are left out.
    pub no_long_jumps: bool,
    /// Whether the ways on from a node may be taken from the option cache.
    pub use_option_cache: bool,
    /// What going forward costs more where there is also a turn.
    pub forward_penalty_on_intersections: Cost,
}

/// A way on from the node that is being expanded.
#[derive(Clone, Copy, Debug)]
pub struct Neighbor {
    pub pano: Pano,
    /// In microdegrees.
    pub heading: i32,
    /// The great-circle distance from the panorama to the goal in
    /// millimetres.
    pub goal_distance: u64,
}

impl Neighbor {
    /// The node that a step to this way on leads to.
    pub open spec fn ident(self) -> NodeIdent {
        NodeIdent { pano: self.pano, heading: self.heading }
    }
}

/// The estimate of the cost that remains at `goal_distance` millimetres from
/// the goal.
pub open spec fn heuristic_cost(goal_distance: u64, factor: u32) -> int {
    (goal_distance * 1000) / (factor as int)
}

/// Whether a node at `distance` from the goal has reached it: it is within
/// 15 m, or within 30 m while the point 15 m behind it is within 15 m.
pub open spec fn goal_reached(distance: u64, behind_distance: u64) -> bool {
    distance < 15_000 || (distance < 30_000 && behind_distance < 15_000)
}

/// Whether the ways on look like an intersection: there are several and one
/// of them turns by more than 30°.
pub open spec fn has_turn(neighbors: Seq<Neighbor>, heading: i32) -> bool {
    neighbors.len() > 1 && exists|i: int|
        0 <= i < neighbors.len() && heading_gap(
            (#[trigger] neighbors[i]).heading as int,
            heading as int,
        ) > 30_000_000
}

/// The cost of the step to the `i`-th way on.
pub open spec fn edge_cost(neighbors: Seq<Neighbor>, i: int, heading: i32, penalty: Cost) -> int {
    let base: int = if neighbors.len() == 1 {
        5875
    } else {
        9625
    };
    let bonus: int = if i == 0 && neighbors.len() > 1 {
        1
    } else {
        0
    };
    let extra: int = if penalty > 0 && has_turn(neighbors, heading) && heading_gap(
        neighbors[i].heading as int,
        heading as int,
    ) < 30_000_000 {
        penalty as int
    } else {
        0
    };
    base - bonus + extra
}

/// Whether the step to `to` is left out as a long jump.
pub open spec fn too_long(from: Location, to: Location, approx_lng_mm_per_degree: u32) -> bool {
    underestimate_sqr(from, to, approx_lng_mm_per_degree as int) > 500_000 * 500_000
}

/// The state of a search as contracts see it.
pub struct SearchView {
    pub nodes: Seq<NodeRecord>,
    pub open: Multiset<WeightedNode>,
    pub best_index: u32,
    pub best_heuristic: Cost,
}

/// A cost, or the greatest cost where it is beyond the range.
pub open spec fn capped(cost: int) -> Cost {
    if cost > u64::MAX {
        u64::MAX
    } else {
        cost as u64
    }
}

/// The state after the path through node `from`, reached at cost `g_score`,
/// has been offered to `neighbor` over a step of cost `cost`. A node that was
/// met before keeps the location it was first met at, and its estimate is
/// taken from there.
pub open spec fn offered(
    view: SearchView,
    from: u32,
    g_score: Cost,
    cost: int,
    neighbor: Neighbor,
    factor: u32,
) -> SearchView {
    let tentative = g_score + cost;
    if tentative > u64::MAX {
        view
    } else {
        match relaxed_index(view.nodes, neighbor.ident(), tentative as u64) {
            None => view,
            Some(index) => {
                let nodes = relaxed(
                    view.nodes,
                    neighbor.ident(),
                    neighbor.goal_distance,
                    from,
                    tentative as u64,
                );
                let h = capped(heuristic_cost(nodes[index as int].goal_distance, factor));
                SearchView {
                    nodes,
                    open: view.open.insert(
                        WeightedNode {
                            index,
                            g_score: tentative as u64,
                            f_score: capped(tentative + h),
                        },
                    ),
                    best_index: if h < view.best_heuristic {
                        index
                    } else {
                        view.best_index
                    },
                    best_heuristic: if h < view.best_heuristic {
                        h
                    } else {
                        view.best_heuristic
                    },
                }
            },
        }
    }
}

/// The state after the first `count` ways on from node `from` have been
/// gone through in order.
pub open spec fn expanded(
    view: SearchView,
    from: u32,
    g_score: Cost,
    neighbors: Seq<Neighbor>,
    settings: PathSettings,
    approx_lng_mm_per_degree: u32,
    count: int,
) -> SearchView
    decreases count,
{
    if count <= 0 {
        view
    } else {
        let before = expanded(
            view,
            from,
            g_score,
            neighbors,
            settings,
            approx_lng_mm_per_degree,
            count - 1,
        );
        let neighbor = neighbors[count - 1];
        let node = view.nodes[from as int].ident;
        if settings.no_long_jumps && too_long(
            node.pano.loc,
            neighbor.pano.loc,
            approx_lng_mm_per_degree,
        ) {
            before
        } else {
            offered(
                before,
                from,
                g_score,
                edge_cost(
                    neighbors,
                    count - 1,
                    node.heading,
                    settings.forward_penalty_on_intersections,
                ),
                neighbor,
                settings.heuristic_factor,
            )
        }
    }
}

/// The share of the way that is done, in millionths: one less the ratio of
/// the best estimate found to the estimate at the start, and no less than
/// nothing.
pub open spec fn share_done(best_heuristic: Cost, overall_heuristic: Cost) -> int {
    if overall_heuristic == 0 || best_heuristic >= overall_heuristic {
        0
    } else {
        ((overall_heuristic - best_heuristic) * 1_000_000) / (overall_heuristic as int)
    }
}

/// The seconds that remain if the work goes on at the pace so far, or -1
/// where nothing is done yet.
pub open spec fn seconds_remaining(elapsed_millis: u64, millionths_done: int) -> int {
    if millionths_done <= 0 {
        -1
    } else {
        ((elapsed_millis * 1_000_000) / millionths_done - elapsed_millis) / 1000
    }
}

/// Whether a snapshot is due: at each of the first 1,024 nodes and at each
/// 1,024th after them, once 100 ms or more have passed since the last.
pub open spec fn snapshot_due(nodes_considered: usize, millis_since_last: u64) -> bool {
    (nodes_considered % 1024 == 0 || nodes_considered < 1024) && millis_since_last >= 100
}

/// See [`heuristic_cost`].
pub fn heuristic(goal_distance: u64, factor: u32) -> (h: Cost)
    requires
        MIN_HEURISTIC_FACTOR <= factor <= MAX_HEURISTIC_FACTOR,
    ensures
        h == heuristic_cost(goal_distance, factor),
        h == capped(heuristic_cost(goal_distance, factor)),
        h <= goal_distance,
{
    let scaled: u128 = goal_distance as u128 * 1000;
    let h: u128 = scaled / (factor as u128);
    assert(h <= goal_distance) by (nonlinear_arith)
        requires
            h == (goal_distance * 1000) / (factor as int),
            factor >= 1000,
    ;
    h as u64
}

/// See [`goal_reached`]. `behind_distance` is the distance to the goal from
/// the point 15 m behind the node, against its heading; it is read only
/// where `distance` is between 15 m and 30 m.
pub fn is_goal_reached(distance: u64, behind_distance: u64) -> (reached: bool)
    ensures
        reached == goal_reached(distance, behind_distance),
{
    if distance < 2 * GOAL_RADIUS {
        if distance < GOAL_RADIUS {
            return true;
        }
        return behind_distance < GOAL_RADIUS;
    }
    false
}

/// See [`snapshot_due`].
pub fn is_snapshot_due(nodes_considered: usize, millis_since_last: u64) -> (due: bool)
    ensures
        due == snapshot_due(nodes_considered, millis_since_last),
{
    (nodes_considered % 1024 == 0 || nodes_considered < 1024) && millis_since_last >= 100
}

/// See [`share_done`].
pub fn percent_done(best_heuristic: Cost, overall_heuristic: Cost) -> (millionths: u32)
    ensures
        millionths == share_done(best_heuristic, overall_heuristic),
        millionths <= 1_000_000,
{
    if overall_heuristic == 0 || best_heuristic >= overall_heuristic {
        return 0;
    }
    let gained: u128 = (overall_heuristic - best_heuristic) as u128;
    let share: u128 = gained * 1_000_000 / (overall_heuristic as u128);
    assert(share <= 1_000_000) by (nonlinear_arith)
        requires
            share == (gained * 1_000_000) / (overall_heuristic as int),
            gained <= overall_heuristic,
            overall_heuristic > 0,
    ;
    share as u32
}

/// The seconds that remain, or the greatest value where they are beyond the
/// range.
pub open spec fn remaining_or_most(elapsed_millis: u64, millionths_done: int) -> i64 {
    if seconds_remaining(elapsed_millis, millionths_done) > i64::MAX {
        i64::MAX
    } else {
        seconds_remaining(elapsed_millis, millionths_done) as i64
    }
}

/// See [`remaining_or_most`].
pub fn estimate_seconds_remaining(elapsed_millis: u64, millionths_done: u32) -> (seconds: i64)
    requires
        millionths_done <= 1_000_000,
    ensures
        seconds == remaining_or_most(elapsed_millis, millionths_done as int),
{
    if millionths_done == 0 {
        return -1;
    }
    let whole: u128 = elapsed_millis as u128 * 1_000_000 / (millionths_done as u128);
    assert(whole >= elapsed_millis) by (nonlinear_arith)
        requires
            whole == (elapsed_millis * 1_000_000) / (millionths_done as int),
            0 < millionths_done <= 1_000_000,
    ;
    let seconds: u128 = (whole - elapsed_millis as u128) / 1000;
    if seconds > i64::MAX as u128 {
        i64::MAX
    } else {
        seconds as i64
    }
}

/// Whether `update` is the snapshot of a search while the node `current` is
/// being expanded: the share done by the best estimate found, the time that
/// remains at the pace so far, the cost of the path to the node nearest to the
/// goal, that path and the path to `current`.
pub open spec fn is_snapshot(
    update: ProgressUpdate,
    view: SearchView,
    overall_heuristic: Cost,
    considered: usize,
    current: int,
    elapsed_millis: u64,
) -> bool {
    &&& update.percent_done == share_done(view.best_heuristic, overall_heuristic)
    &&& update.estimated_seconds_remaining == remaining_or_most(
        elapsed_millis,
        share_done(view.best_heuristic, overall_heuristic),
    )
    &&& update.best_path_cost == view.nodes[view.best_index as int].data.g_score
    &&& update.nodes_considered == considered
    &&& update.best_path@ == locations(route(view.nodes, view.best_index as int))
    &&& update.current_path@ == locations(route(view.nodes, current))
}

/// Whether `update` is the last one of a search: all is done, nothing
/// remains, and the best path is the path found, or none.
pub open spec fn is_last_update(
    update: ProgressUpdate,
    cost: Cost,
    considered: usize,
    best_path: Seq<Location>,
) -> bool {
    &&& update.percent_done == 1_000_000
    &&& update.estimated_seconds_remaining == 0
    &&& update.best_path_cost == cost
    &&& update.nodes_considered == considered
    &&& update.best_path@ == best_path
    &&& update.current_path@ == Seq::<Location>::empty()
}

/// One search from a start node toward a goal.
///
/// The caller drives it: it pops a node, measures its distance to the goal,
/// and either ends the search there or finds the ways on from the node and
/// hands them to `expand`.
pub struct AStar {
    nodes: NodeMap,
    open_set: OpenSet,
    settings: PathSettings,
    overall_heuristic: Cost,
    best_node_index: u32,
    heuristic_of_best_node: Cost,
    nodes_considered: usize,
    allow_turnaround: bool,
}

impl View for AStar {
    type V = SearchView;

    closed spec fn view(&self) -> SearchView {
        SearchView {
            nodes: self.nodes@,
            open: self.open_set@,
            best_index: self.best_node_index,
            best_heuristic: self.heuristic_of_best_node,
        }
    }
}

/// Every entry of the open set names a node of the table that is known to
/// cost no more than the entry says.
pub open spec fn entries_known(view: SearchView) -> bool {
    forall|entry: WeightedNode| #[trigger]
        view.open.contains(entry) ==> entry.index < view.nodes.len()
            && view.nodes[entry.index as int].data.g_score <= entry.g_score
}

proof fn lemma_relaxed_keeps(
    nodes: Seq<NodeRecord>,
    ident: NodeIdent,
    goal_distance: u64,
    came_from: u32,
    g: Cost,
)
    requires
        linked(nodes),
    ensures
        relaxed(nodes, ident, goal_distance, came_from, g).len() >= nodes.len(),
        forall|j: int|
            0 <= j < nodes.len() ==> (#[trigger] relaxed(
                nodes,
                ident,
                goal_distance,
                came_from,
                g,
            )[j]).data.g_score <= nodes[j].data.g_score && relaxed(
                nodes,
                ident,
                goal_distance,
                came_from,
                g,
            )[j].ident == nodes[j].ident,
        relaxed_index(nodes, ident, g).is_some() ==> relaxed_index(nodes, ident, g).unwrap()
            < relaxed(nodes, ident, goal_distance, came_from, g).len() && relaxed(
            nodes,
            ident,
            goal_distance,
            came_from,
            g,
        )[relaxed_index(nodes, ident, g).unwrap() as int].data.g_score == g,
{
}

impl AStar {
    /// The table of nodes and the open set are well formed, the heuristic
    /// factor is in range, and the open set names nodes of the table.
    pub closed spec fn wf(&self) -> bool {
        &&& self.nodes.wf()
        &&& self.open_set.wf()
        &&& MIN_HEURISTIC_FACTOR <= self.settings.heuristic_factor <= MAX_HEURISTIC_FACTOR
        &&& self.best_node_index < self.nodes@.len()
        &&& entries_known(self@)
    }

    /// How the search is run.
    pub closed spec fn settings(&self) -> PathSettings {
        self.settings
    }

    /// The estimate of the cost from the start to the goal.
    pub closed spec fn overall_heuristic(&self) -> Cost {
        self.overall_heuristic
    }

    /// The number of nodes taken from the open set so far.
    pub closed spec fn considered(&self) -> usize {
        self.nodes_considered
    }

    /// Whether a turnaround may still be taken.
    pub closed spec fn turnaround_allowed(&self) -> bool {
        self.allow_turnaround
    }

    /// What holds of every search: the table is linked, so the chain back
    /// from any node ends at the start; its nodes are distinct; and the open
    /// set names nodes of the table.
    pub proof fn lemma_wf(&self)
        requires
            self.wf(),
        ensures
            linked(self@.nodes),
            node_map::distinct(self@.nodes),
            entries_known(self@),
            self@.best_index < self@.nodes.len(),
            MIN_HEURISTIC_FACTOR <= self.settings().heuristic_factor <= MAX_HEURISTIC_FACTOR,
    {
        self.nodes.lemma_wf();
    }

    /// A search that has met the start node alone, which is
    /// `start_goal_distance` millimetres from the goal.
    pub fn new(start: NodeIdent, start_goal_distance: u64, settings: PathSettings) -> (search:
        AStar)
        requires
            MIN_HEURISTIC_FACTOR <= settings.heuristic_factor <= MAX_HEURISTIC_FACTOR,
        ensures
            search.wf(),
            search@.nodes == seq![
                NodeRecord {
                    ident: start,
                    goal_distance: start_goal_distance,
                    data: NodeData { came_from: SENTINEL, g_score: 0 },
                },
            ],
            search@.open == Multiset::<WeightedNode>::empty().insert(
                WeightedNode { index: 0, g_score: 0, f_score: 0 },
            ),
            search@.best_index == 0,
            search@.best_heuristic == Cost::MAX,
            search.settings() == settings,
            search.overall_heuristic() == heuristic_cost(
                start_goal_distance,
                settings.heuristic_factor,
            ),
            search.considered() == 0,
            search.turnaround_allowed(),
    {
        let nodes = NodeMap::new(start, start_goal_distance);
        let mut open_set = OpenSet::new();
        open_set.push(WeightedNode { index: 0, g_score: 0, f_score: 0 });
        AStar {
            nodes,
            open_set,
            settings,
            overall_heuristic: heuristic(start_goal_distance, settings.heuristic_factor),
            best_node_index: 0,
            heuristic_of_best_node: Cost::MAX,
            nodes_considered: 0,
            allow_turnaround: true,
        }
    }

    /// The number of nodes taken from the open set so far.
    pub fn nodes_considered(&self) -> (n: usize)
        ensures
            n == self.considered(),
    {
        self.nodes_considered
    }

    /// Whether a node without a way on may still be left backwards.
    pub fn allow_turnaround(&self) -> (allowed: bool)
        ensures
            allowed == self.turnaround_allowed(),
    {
        self.allow_turnaround
    }

    /// Notes whether the ways on just found were found by turning around.
    /// After the first turnaround no other is allowed.
    pub fn record_turnaround(&mut self, turnaround: bool)
        requires
            old(self).wf(),
        ensures
            final(self).wf(),
            final(self)@ == old(self)@,
            final(self).settings() == old(self).settings(),
            final(self).overall_heuristic() == old(self).overall_heuristic(),
            final(self).considered() == old(self).considered(),
            final(self).turnaround_allowed() == (old(self).turnaround_allowed() && !turnaround),
    {
        if turnaround {
            self.allow_turnaround = false;
        }
    }

    /// Takes the entry of least `f_score` out of the open set, or returns
    /// `None` where the open set is empty: then there is no path.
    pub fn pop(&mut self) -> (popped: Option<WeightedNode>)
        requires
            old(self).wf(),
        ensures
            final(self).wf(),
            final(self)@.nodes == old(self)@.nodes,
            final(self)@.best_index == old(self)@.best_index,
            final(self)@.best_heuristic == old(self)@.best_heuristic,
            final(self).settings() == old(self).settings(),
            final(self).overall_heuristic() == old(self).overall_heuristic(),
            final(self).turnaround_allowed() == old(self).turnaround_allowed(),
            popped.is_none() == (old(self)@.open.len() == 0),
            popped.is_none() ==> final(self)@.open == old(self)@.open && final(self).considered()
                == old(self).considered(),
            popped.is_some() ==> {
                let entry = popped.unwrap();
                &&& old(self)@.open.contains(entry)
                &&& final(self)@.open == old(self)@.open.remove(entry)
                &&& forall|other: WeightedNode|
                    old(self)@.open.contains(other) ==> entry.f_score <= other.f_score
                &&& entry.index < old(self)@.nodes.len()
                &&& old(self)@.nodes[entry.index as int].data.g_score <= entry.g_score
                &&& final(self).considered() == if old(self).considered() < usize::MAX {
                    (old(self).considered() + 1) as usize
                } else {
                    usize::MAX
                }
            },
    {
        let popped = self.open_set.pop();
        match popped {
            Some(entry) => {
                if self.nodes_considered < usize::MAX {
                    self.nodes_considered = self.nodes_considered + 1;
                }
                proof {
                    assert(old(self)@.open.contains(entry));
                    assert forall|e: WeightedNode| #[trigger]
                        self@.open.contains(e) implies e.index < self@.nodes.len()
                        && self@.nodes[e.index as int].data.g_score <= e.g_score by {
                        assert(old(self)@.open.contains(e));
                    }
                }
            },
            None => {},
        }
        popped
    }

    /// The node at `index`.
    pub fn get_index(&self, index: u32) -> (record: Option<NodeRecord>)
        ensures
            record == if index < self@.nodes.len() {
                Some(self@.nodes[index as int])
            } else {
                None
            },
    {
        self.nodes.get_index(index)
    }

    /// Whether a cheaper way to the node of `popped` is known than the one
    /// that `popped` was entered for.
    pub fn is_stale(&self, popped: &WeightedNode) -> (stale: bool)
        requires
            popped.index < self@.nodes.len(),
        ensures
            stale == (popped.g_score > self@.nodes[popped.index as int].data.g_score),
    {
        match self.nodes.get_index(popped.index) {
            Some(record) => popped.g_score > record.data.g_score,
            None => false,
        }
    }

    /// Offers the path through the node of `popped` to each of its ways on,
    /// in order: see [`expanded`].
    pub fn expand(
        &mut self,
        popped: &WeightedNode,
        neighbors: &Vec<Neighbor>,
        approx_lng_mm_per_degree: u32,
    )
        requires
            old(self).wf(),
            popped.index < old(self)@.nodes.len(),
            old(self)@.nodes[popped.index as int].data.g_score <= popped.g_score,
        ensures
            final(self).wf(),
            final(self)@ == expanded(
                old(self)@,
                popped.index,
                popped.g_score,
                neighbors@,
                old(self).settings(),
                approx_lng_mm_per_degree,
                neighbors@.len() as int,
            ),
            final(self).settings() == old(self).settings(),
            final(self).overall_heuristic() == old(self).overall_heuristic(),
            final(self).considered() == old(self).considered(),
            final(self).turnaround_allowed() == old(self).turnaround_allowed(),
    {
        let node = match self.nodes.get_index(popped.index) {
            Some(record) => record.ident,
            None => { return ; },
        };
        let count = neighbors.len();
        let penalty = self.settings.forward_penalty_on_intersections;
        let base: Cost = if count == 1 {
            SINGLE_OPTION_COST
        } else {
            MULTIPLE_OPTION_COST
        };
        let penalize = penalty > 0 && turns(neighbors, node.heading);
        let mut i: usize = 0;
        while i < count
            invariant
                i <= count,
                count == neighbors@.len(),
                self.wf(),
                popped.index < old(self)@.nodes.len(),
                old(self)@.nodes.len() <= self@.nodes.len(),
                self@.nodes[popped.index as int].data.g_score <= popped.g_score,
                self@.nodes[popped.index as int].ident == node,
                old(self)@.nodes[popped.index as int].ident == node,
                penalty == self.settings.forward_penalty_on_intersections,
                self.settings == old(self).settings,
                self.overall_heuristic == old(self).overall_heuristic,
                self.nodes_considered == old(self).nodes_considered,
                self.allow_turnaround == old(self).allow_turnaround,
                base == if count == 1 {
                    SINGLE_OPTION_COST
                } else {
                    MULTIPLE_OPTION_COST
                },
                penalize == (penalty > 0 && has_turn(neighbors@, node.heading)),
                self@ == expanded(
                    old(self)@,
                    popped.index,
                    popped.g_score,
                    neighbors@,
                    old(self).settings(),
                    approx_lng_mm_per_degree,
                    i as int,
                ),
            decreases count - i,
        {
            let neighbor = neighbors[i];
            let ghost before = self@;
            let ghost step_cost = edge_cost(neighbors@, i as int, node.heading, penalty);
            i = i + 1;
            if self.settings.no_long_jumps && !is_at_least_within_radius(
                node.pano.loc,
                neighbor.pano.loc,
                JUMP_LIMIT,
                approx_lng_mm_per_degree,
            ) {
                continue ;
            }
            let mut cost: Cost = base;
            if i == 1 && count > 1 {
                cost = cost - FIRST_OPTION_BONUS;
            }
            if penalize && calculate_heading_gap(neighbor.heading, node.heading) < TURN_THRESHOLD {
                cost = match cost.checked_add(penalty) {
                    Some(sum) => sum,
                    None => { continue ; },
                };
            }
            assert(cost == step_cost);
            let tentative = match popped.g_score.checked_add(cost) {
                Some(sum) => sum,
                None => { continue ; },
            };
            let ident = NodeIdent { pano: neighbor.pano, heading: neighbor.heading };
            proof {
                self.nodes.lemma_wf();
                lemma_relaxed_keeps(
                    self.nodes@,
                    ident,
                    neighbor.goal_distance,
                    popped.index,
                    tentative,
                );
            }
            match self.nodes.relax(ident, neighbor.goal_distance, popped.index, tentative) {
                Some(index) => {
                    let kept_distance = match self.nodes.get_index(index) {
                        Some(record) => record.goal_distance,
                        None => neighbor.goal_distance,
                    };
                    let h = heuristic(kept_distance, self.settings.heuristic_factor);
                    if h < self.heuristic_of_best_node {
                        self.heuristic_of_best_node = h;
                        self.best_node_index = index;
                    }
                    let entry = WeightedNode {
                        index,
                        g_score: tentative,
                        f_score: tentative.saturating_add(h),
                    };
                    self.open_set.push(entry);
                    proof {
                        assert forall|e: WeightedNode| #[trigger]
                            self@.open.contains(e) implies e.index < self@.nodes.len()
                            && self@.nodes[e.index as int].data.g_score <= e.g_score by {
                            if e != entry {
                                assert(before.open.contains(e));
                            }
                        }
                        assert(self@ == offered(
                            before,
                            popped.index,
                            popped.g_score,
                            step_cost,
                            neighbor,
                            self.settings.heuristic_factor,
                        ));
                    }
                },
                None => {
                    proof {
                        assert forall|e: WeightedNode| #[trigger]
                            self@.open.contains(e) implies e.index < self@.nodes.len()
                            && self@.nodes[e.index as int].data.g_score <= e.g_score by {
                            assert(before.open.contains(e));
                        }
                    }
                },
            }
        }
    }

    /// The snapshot to publish while the node `current` is being expanded,
    /// `elapsed_millis` after the search began.
    pub fn progress(&self, current: u32, elapsed_millis: u64) -> (update: ProgressUpdate)
        requires
            self.wf(),
            current < self@.nodes.len(),
        ensures
            is_snapshot(
                update,
                self@,
                self.overall_heuristic(),
                self.considered(),
                current as int,
                elapsed_millis,
            ),
    {
        let percent = percent_done(self.heuristic_of_best_node, self.overall_heuristic);
        let best_path_cost = match self.nodes.get_index(self.best_node_index) {
            Some(record) => record.data.g_score,
            None => 0,
        };
        let best = self.reconstruct_path(self.best_node_index);
        let current_path = self.reconstruct_path(current);
        ProgressUpdate {
            percent_done: percent as i32,
            estimated_seconds_remaining: estimate_seconds_remaining(elapsed_millis, percent),
            best_path_cost,
            nodes_considered: self.nodes_considered,
            best_path: path_locations(&best),
            current_path: path_locations(&current_path),
        }
    }

    /// Ends the search at the node of `popped`, which has reached the goal:
    /// the path to it, and the last snapshot.
    pub fn finish(&self, popped: &WeightedNode) -> (found: (Vec<NodeIdent>, ProgressUpdate))
        requires
            self.wf(),
            popped.index < self@.nodes.len(),
        ensures
            found.0@ == route(self@.nodes, popped.index as int),
            found.0@.len() >= 1,
            found.0@.first() == self@.nodes[0].ident,
            found.0@.last() == self@.nodes[popped.index as int].ident,
            is_last_update(found.1, popped.g_score, self.considered(), locations(found.0@)),
    {
        let path = self.reconstruct_path(popped.index);
        let update = ProgressUpdate {
            percent_done: ALL_DONE,
            estimated_seconds_remaining: 0,
            best_path_cost: popped.g_score,
            nodes_considered: self.nodes_considered,
            best_path: path_locations(&path),
            current_path: Vec::new(),
        };
        (path, update)
    }

    /// The last snapshot of a search whose open set ran empty.
    pub fn exhausted(&self) -> (update: ProgressUpdate)
        ensures
            is_last_update(update, 0, self.considered(), Seq::<Location>::empty()),
    {
        ProgressUpdate {
            percent_done: ALL_DONE,
            estimated_seconds_remaining: 0,
            best_path_cost: 0,
            nodes_considered: self.nodes_considered,
            best_path: Vec::new(),
            current_path: Vec::new(),
        }
    }

    /// The path from the start node to the node `current`, which follows
    /// `came_from` backwards: it begins with the start node and ends with
    /// `current`.
    pub fn reconstruct_path(&self, current: u32) -> (path: Vec<NodeIdent>)
        requires
            self.wf(),
            current < self@.nodes.len(),
        ensures
            path@ == route(self@.nodes, current as int),
            path@.len() >= 1,
            path@.first() == self@.nodes[0].ident,
            path@.last() == self@.nodes[current as int].ident,
    {
        proof {
            self.nodes.lemma_wf();
            lemma_chain_ends_at_start(self@.nodes, current as int);
        }
        let ghost whole = chain_back(self@.nodes, current as int);
        let mut back: Vec<NodeIdent> = Vec::new();
        let mut at: u32 = current;
        loop
            invariant_except_break
                back@.len() < whole.len(),
                whole.subrange(back@.len() as int, whole.len() as int) == chain_back(
                    self@.nodes,
                    at as int,
                ),
            invariant
                self.wf(),
                linked(self@.nodes),
                at < self@.nodes.len(),
                whole == chain_back(self@.nodes, current as int),
                forall|k: int| 0 <= k < back@.len() ==> #[trigger] follows(back@, whole, self@.nodes, k),
            ensures
                back@.len() == whole.len(),
                forall|k: int| 0 <= k < back@.len() ==> #[trigger] follows(back@, whole, self@.nodes, k),
            decreases self@.nodes[at as int].data.g_score,
        {
            let record = match self.nodes.get_index(at) {
                Some(record) => record,
                None => { break ; },
            };
            let ghost rest = chain_back(self@.nodes, at as int);
            proof {
                if at != 0 {
                    assert(cheaper_before(self@.nodes, at as int));
                }
                assert(rest[0] == at);
                assert(whole[back@.len() as int] == rest[0]);
            }
            let ghost filled = back@.len() as int;
            let ghost prior = back@;
            back.push(record.ident);
            proof {
                assert(whole[filled] == at);
                assert forall|k: int| 0 <= k < back@.len() implies #[trigger] follows(
                    back@,
                    whole,
                    self@.nodes,
                    k,
                ) by {
                    if k < filled {
                        assert(follows(prior, whole, self@.nodes, k));
                    }
                }
            }
            if record.data.came_from == SENTINEL {
                proof {
                    if at != 0 {
                        assert(cheaper_before(self@.nodes, at as int));
                    }
                    assert(rest.len() == 1);
                }
                break ;
            }
            proof {
                assert(at != 0);
                let next = chain_back(self@.nodes, record.data.came_from as int);
                assert(rest == seq![at as int] + next);
                assert(whole.subrange(back@.len() as int, whole.len() as int) =~= next) by {
                    assert(whole.subrange(back@.len() as int, whole.len() as int) =~= rest.subrange(
                        1,
                        rest.len() as int,
                    ));
                }
                lemma_chain_ends_at_start(self@.nodes, record.data.came_from as int);
            }
            at = record.data.came_from;
        }
        let mut path: Vec<NodeIdent> = Vec::new();
        let mut left: usize = back.len();
        while left > 0
            invariant
                left <= back@.len(),
                path@.len() == back@.len() - left,
                forall|k: int| 0 <= k < path@.len() ==> #[trigger] path@[k] == back@[back@.len() - 1 - k],
            decreases left,
        {
            left = left - 1;
            path.push(back[left]);
        }
        proof {
            assert forall|k: int| 0 <= k < path@.len() implies path@[k] == route(
                self@.nodes,
                current as int,
            )[k] by {
                assert(follows(back@, whole, self@.nodes, back@.len() - 1 - k));
            }
            assert(path@ =~= route(self@.nodes, current as int));
        }
        path
    }
}

/// The locations of the panoramas along a path.
pub open spec fn locations(path: Seq<NodeIdent>) -> Seq<Location> {
    path.map_values(|node: NodeIdent| node.pano.loc)
}

/// See [`locations`].
pub fn path_locations(path: &Vec<NodeIdent>) -> (locs: Vec<Location>)
    ensures
        locs@ == locations(path@),
{
    let mut locs: Vec<Location> = Vec::new();
    let mut i: usize = 0;
    while i < path.len()
        invariant
            i <= path@.len(),
            locs@ == locations(path@.subrange(0, i as int)),
        decreases path@.len() - i,
    {
        locs.push(path[i].pano.loc);
        i = i + 1;
        proof {
            assert(locs@ =~= locations(path@.subrange(0, i as int)));
        }
    }
    proof {
        assert(path@.subrange(0, i as int) =~= path@);
    }
    locs
}

/// A path that the search returns begins at the start node, ends at the node
/// asked for, and each of its nodes but the first came from the node before
/// it: the chain of `came_from` never ends anywhere but at the start.
pub proof fn lemma_route_begins_at_start(nodes: Seq<NodeRecord>, i: int)
    requires
        linked(nodes),
        0 <= i < nodes.len(),
    ensures
        route(nodes, i).len() == chain_back(nodes, i).len(),
        route(nodes, i).len() >= 1,
        route(nodes, i).first() == nodes[0].ident,
        nodes[0].data.came_from == SENTINEL,
        route(nodes, i).last() == nodes[i].ident,
        forall|k: int|
            0 <= k < route(nodes, i).len() ==> (#[trigger] route(nodes, i)[k]) == nodes[chain_back(
                nodes,
                i,
            ).reverse()[k]].ident,
        forall|k: int|
            0 < k < route(nodes, i).len() ==> nodes[(#[trigger] chain_back(nodes, i).reverse()[k])].data.came_from
                == chain_back(nodes, i).reverse()[k - 1],
{
    lemma_chain_ends_at_start(nodes, i);
    let chain = chain_back(nodes, i);
    assert forall|k: int| 0 < k < chain.len() implies nodes[(#[trigger] chain.reverse()[k])].data.came_from
        == chain.reverse()[k - 1] by {
        let j = chain.len() - 1 - k;
        assert(chain.reverse()[k] == chain[j]);
        assert(chain.reverse()[k - 1] == chain[j + 1]);
    }
}

/// The `k`-th node gathered is the `k`-th node of the chain.
spec fn follows(back: Seq<NodeIdent>, chain: Seq<int>, nodes: Seq<NodeRecord>, k: int) -> bool {
    0 <= chain[k] < nodes.len() && back[k] == nodes[chain[k]].ident
}

/// The path from the start node to node `i`.
pub open spec fn route(nodes: Seq<NodeRecord>, i: int) -> Seq<NodeIdent> {
    chain_back(nodes, i).reverse().map_values(|index: int| nodes[index].ident)
}

/// Whether any of several ways on turns by more than 30°.
fn turns(neighbors: &Vec<Neighbor>, heading: i32) -> (turn: bool)
    ensures
        turn == has_turn(neighbors@, heading),
{
    if neighbors.len() <= 1 {
        return false;
    }
    let mut i: usize = 0;
    while i < neighbors.len()
        invariant
            i <= neighbors@.len(),
            neighbors@.len() > 1,
            forall|k: int|
                0 <= k < i ==> heading_gap((#[trigger] neighbors@[k]).heading as int, heading as int)
                    <= 30_000_000,
        decreases neighbors@.len() - i,
    {
        if calculate_heading_gap(neighbors[i].heading, heading) > TURN_THRESHOLD {
            assert(heading_gap(neighbors@[i as int].heading as int, heading as int) > 30_000_000);
            return true;
        }
        i = i + 1;
    }
    false
}

/// The share done never goes down as the best estimate found goes down.
pub proof fn lemma_share_done_is_monotonic(before: Cost, after: Cost, overall: Cost)
    requires
        after <= before,
    ensures
        share_done(before, overall) <= share_done(after, overall),
        0 <= share_done(before, overall) <= 1_000_000,
{
    if overall > 0 {
        if before < overall {
            vstd::arithmetic::div_mod::lemma_div_is_ordered(
                (overall - before) * 1_000_000,
                (overall - after) * 1_000_000,
                overall as int,
            );
            vstd::arithmetic::div_mod::lemma_div_is_ordered(
                (overall - before) * 1_000_000,
                overall * 1_000_000,
                overall as int,
            );
            vstd::arithmetic::div_mod::lemma_div_multiples_vanish(1_000_000, overall as int);
            assert(overall * 1_000_000 == 1_000_000 * overall) by (nonlinear_arith);
            vstd::arithmetic::div_mod::lemma_div_pos_is_pos(
                (overall - before) * 1_000_000,
                overall as int,
            );
        } else if after < overall {
            vstd::arithmetic::div_mod::lemma_div_pos_is_pos(
                (overall - after) * 1_000_000,
                overall as int,
            );
        }
    }
}

/// Expanding a node never raises the best estimate found, so the share done
/// of a search never goes down.
pub proof fn lemma_expanded_keeps_best(
    view: SearchView,
    from: u32,
    g_score: Cost,
    neighbors: Seq<Neighbor>,
    settings: PathSettings,
    approx_lng_mm_per_degree: u32,
    count: int,
)
    ensures
        expanded(
            view,
            from,
            g_score,
            neighbors,
            settings,
            approx_lng_mm_per_degree,
            count,
        ).best_heuristic <= view.best_heuristic,
    decreases count,
{
    if count > 0 {
        lemma_expanded_keeps_best(
            view,
            from,
            g_score,
            neighbors,
            settings,
            approx_lng_mm_per_degree,
            count - 1,
        );
    }
}

} // verus!
