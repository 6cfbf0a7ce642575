//! A search as a sequence of steps: the caller measures and fetches what a
//! step asks for, and the step decides what comes next.

use vstd::prelude::*;
use crate::astar::entries_known;
use crate::astar::expanded;
use crate::astar::node_map::distinct;
use crate::astar::node_map::linked;
use crate::astar::heuristic_cost;
use crate::astar::is_last_update;
use crate::astar::is_snapshot;
use crate::astar::is_snapshot_due;
use crate::astar::locations;
use crate::astar::route;
use crate::astar::snapshot_due;
use crate::astar::AStar;
use crate::astar::Cost;
use crate::astar::Neighbor;
use crate::astar::NodeIdent;
use crate::astar::PathSettings;
use crate::astar::SearchView;
use crate::astar::WeightedNode;
use crate::astar::GOAL_RADIUS;
use crate::astar::MAX_HEURISTIC_FACTOR;
use crate::astar::MIN_HEURISTIC_FACTOR;
use crate::model::Location;
use crate::ProgressUpdate;

verus! {

/// What the clock says when a distance is handed in.
#[derive(Clone, Copy, Debug)]
pub struct Clock {
    /// The milliseconds since the last snapshot was published.
    pub millis_since_update: u64,
    /// The milliseconds since the search began.
    pub elapsed_millis: u64,
}

/// What the caller has to tell a search.
pub enum SearchEvent {
    /// The search begins.
    Begin,
    /// The great-circle distance in millimetres from the node that was to be
    /// measured to the goal.
    Distance(u64, Clock),
    /// The distance to the goal from the point 15 m behind the node that was
    /// to be measured, against its heading.
    BehindDistance(u64, Clock),
    /// The ways on from the node that was to be expanded, whether they were
    /// found by turning around, and the span of a degree of longitude at the
    /// node in millimetres.
    Options(Vec<Neighbor>, bool, u32),
}

/// What a search asks of the caller, or what it ends with.
pub enum SearchAction {
    /// Measure the distance from this node to the goal.
    Measure(NodeIdent),
    /// Measure the distance to the goal from the point 15 m behind this
    /// node.
    MeasureBehind(NodeIdent),
    /// Publish the snapshot, if there is one, and find the ways on from this
    /// node, with a turnaround if the flag says so.
    Expand(NodeIdent, bool, Option<ProgressUpdate>),
    /// The goal is reached by this path.
    Found(Vec<NodeIdent>, ProgressUpdate),
    /// There is no path.
    NoPath(ProgressUpdate),
    /// The event does not answer what was asked.
    OutOfTurn,
}

/// Where a search stands between two steps.
#[derive(Clone, Copy, Debug, PartialEq, Eq, Structural)]
pub enum Phase {
    /// Not begun.
    Idle,
    /// The distance of the node of this entry is being measured.
    Measuring(WeightedNode),
    /// The distance behind the node of this entry is being measured.
    MeasuringBehind(WeightedNode),
    /// The ways on from the node of this entry are being found.
    Expanding(WeightedNode),
    /// Ended.
    Done,
}

/// A search as contracts see it.
pub struct SearchState {
    pub view: SearchView,
    pub phase: Phase,
    pub considered: usize,
    pub turnaround_allowed: bool,
    pub settings: PathSettings,
    pub overall_heuristic: Cost,
}

/// One search, step by step.
pub struct Search {
    search: AStar,
    phase: Phase,
}

/// The entry of a phase names a node of the table that is known to cost no
/// more than the entry says.
pub open spec fn entry_known(view: SearchView, phase: Phase) -> bool {
    match phase {
        Phase::Measuring(p) | Phase::MeasuringBehind(p) | Phase::Expanding(p) => p.index
            < view.nodes.len() && view.nodes[p.index as int].data.g_score <= p.g_score,
        _ => true,
    }
}

/// The search goes on to the node of least `f_score` in the open set, which
/// is to be measured, or ends without a path where the open set is empty.
pub open spec fn goes_on(before: SearchState, after: SearchState, action: SearchAction) -> bool {
    &&& after.view.nodes == before.view.nodes
    &&& after.view.best_index == before.view.best_index
    &&& after.view.best_heuristic == before.view.best_heuristic
    &&& after.turnaround_allowed == before.turnaround_allowed
    &&& after.settings == before.settings
    &&& after.overall_heuristic == before.overall_heuristic
    &&& if before.view.open.len() == 0 {
        &&& after.view.open == before.view.open
        &&& after.considered == before.considered
        &&& after.phase == Phase::Done
        &&& match action {
            SearchAction::NoPath(update) => is_last_update(
                update,
                0,
                before.considered,
                Seq::<Location>::empty(),
            ),
            _ => false,
        }
    } else {
        match after.phase {
            Phase::Measuring(entry) => {
                &&& before.view.open.contains(entry)
                &&& after.view.open == before.view.open.remove(entry)
                &&& forall|other: WeightedNode|
                    before.view.open.contains(other) ==> entry.f_score <= other.f_score
                &&& entry.index < before.view.nodes.len()
                &&& after.considered == if before.considered < usize::MAX {
                    (before.considered + 1) as usize
                } else {
                    usize::MAX
                }
                &&& match action {
                    SearchAction::Measure(node) => node
                        == before.view.nodes[entry.index as int].ident,
                    _ => false,
                }
            },
            _ => false,
        }
    }
}

/// The search ends at the node of `entry`, which has reached the goal.
pub open spec fn ends_at(
    before: SearchState,
    entry: WeightedNode,
    after: SearchState,
    action: SearchAction,
) -> bool {
    &&& after == (SearchState { phase: Phase::Done, ..before })
    &&& match action {
        SearchAction::Found(path, update) => {
            &&& path@ == route(before.view.nodes, entry.index as int)
            &&& path@.len() >= 1
            &&& path@.first() == before.view.nodes[0].ident
            &&& path@.last() == before.view.nodes[entry.index as int].ident
            &&& is_last_update(update, entry.g_score, before.considered, locations(path@))
        },
        _ => false,
    }
}

/// The node of `entry` has not reached the goal: an entry for which a
/// cheaper path is known is dropped and the search goes on; any other is to
/// be expanded, with a snapshot if one is due.
pub open spec fn passes(
    before: SearchState,
    entry: WeightedNode,
    clock: Clock,
    after: SearchState,
    action: SearchAction,
) -> bool {
    if entry.g_score > before.view.nodes[entry.index as int].data.g_score {
        goes_on(before, after, action)
    } else {
        &&& after == (SearchState { phase: Phase::Expanding(entry), ..before })
        &&& match action {
            SearchAction::Expand(node, allow_turnaround, snapshot) => {
                &&& node == before.view.nodes[entry.index as int].ident
                &&& allow_turnaround == before.turnaround_allowed
                &&& match snapshot {
                    Some(update) => snapshot_due(before.considered, clock.millis_since_update)
                        && is_snapshot(
                        update,
                        before.view,
                        before.overall_heuristic,
                        before.considered,
                        entry.index as int,
                        clock.elapsed_millis,
                    ),
                    None => !snapshot_due(before.considered, clock.millis_since_update),
                }
            },
            _ => false,
        }
    }
}

/// What a step does.
///
/// At the beginning the search goes on to the first node. A node within
/// 15 m of the goal ends the search; one within 30 m has the point behind it
/// measured, and ends the search if that is within 15 m. Any other node
/// passes: it is expanded unless a cheaper path to it is known. The ways on
/// are offered the path through the node, a turnaround among them forbids
/// any later one, and the search goes on. An event that does not answer what
/// was asked changes nothing.
pub open spec fn stepped(
    before: SearchState,
    event: SearchEvent,
    after: SearchState,
    action: SearchAction,
) -> bool {
    match (before.phase, event) {
        (Phase::Idle, SearchEvent::Begin) => goes_on(before, after, action),
        (Phase::Measuring(entry), SearchEvent::Distance(distance, clock)) => if distance < 15_000 {
            ends_at(before, entry, after, action)
        } else if distance < 30_000 {
            &&& after == (SearchState { phase: Phase::MeasuringBehind(entry), ..before })
            &&& match action {
                SearchAction::MeasureBehind(node) => node
                    == before.view.nodes[entry.index as int].ident,
                _ => false,
            }
        } else {
            passes(before, entry, clock, after, action)
        },
        (Phase::MeasuringBehind(entry), SearchEvent::BehindDistance(distance, clock)) => if distance
            < 15_000 {
            ends_at(before, entry, after, action)
        } else {
            passes(before, entry, clock, after, action)
        },
        (Phase::Expanding(entry), SearchEvent::Options(neighbors, turnaround, lng_scale)) => goes_on(
            SearchState {
                view: expanded(
                    before.view,
                    entry.index,
                    entry.g_score,
                    neighbors@,
                    before.settings,
                    lng_scale,
                    neighbors@.len() as int,
                ),
                turnaround_allowed: before.turnaround_allowed && !turnaround,
                ..before
            },
            after,
            action,
        ),
        _ => after == before && action is OutOfTurn,
    }
}

impl Search {
    /// The search as contracts see it.
    pub closed spec fn state(&self) -> SearchState {
        SearchState {
            view: self.search@,
            phase: self.phase,
            considered: self.search.considered(),
            turnaround_allowed: self.search.turnaround_allowed(),
            settings: self.search.settings(),
            overall_heuristic: self.search.overall_heuristic(),
        }
    }

    /// The search is well formed and the entry of its phase is known.
    pub closed spec fn wf(&self) -> bool {
        self.search.wf() && entry_known(self.search@, self.phase)
    }

    /// What holds of every search: its table is linked, so the chain back
    /// from any node ends at the start and a path found is never empty; its
    /// nodes are distinct; the open set and the entry of the phase name nodes
    /// of the table; and the heuristic factor is in range.
    pub proof fn lemma_wf(&self)
        requires
            self.wf(),
        ensures
            linked(self.state().view.nodes),
            distinct(self.state().view.nodes),
            entries_known(self.state().view),
            entry_known(self.state().view, self.state().phase),
            self.state().view.best_index < self.state().view.nodes.len(),
            MIN_HEURISTIC_FACTOR <= self.state().settings.heuristic_factor <= MAX_HEURISTIC_FACTOR,
    {
        self.search.lemma_wf();
    }

    /// A search from `start`, which is `start_goal_distance` millimetres from
    /// the goal, that has not begun.
    pub fn new(start: NodeIdent, start_goal_distance: u64, settings: PathSettings) -> (search:
        Search)
        requires
            MIN_HEURISTIC_FACTOR <= settings.heuristic_factor <= MAX_HEURISTIC_FACTOR,
        ensures
            search.wf(),
            search.state().phase == Phase::Idle,
            search.state().view.nodes.len() == 1,
            search.state().view.nodes[0].ident == start,
            search.state().view.open.len() == 1,
            search.state().considered == 0,
            search.state().turnaround_allowed,
            search.state().settings == settings,
            search.state().overall_heuristic == heuristic_cost(
                start_goal_distance,
                settings.heuristic_factor,
            ),
    {
        Search { search: AStar::new(start, start_goal_distance, settings), phase: Phase::Idle }
    }

    fn go_on(&mut self) -> (action: SearchAction)
        requires
            old(self).search.wf(),
        ensures
            final(self).wf(),
            goes_on(old(self).state(), final(self).state(), action),
    {
        match self.search.pop() {
            None => {
                self.phase = Phase::Done;
                SearchAction::NoPath(self.search.exhausted())
            },
            Some(entry) => {
                self.phase = Phase::Measuring(entry);
                match self.search.get_index(entry.index) {
                    Some(record) => SearchAction::Measure(record.ident),
                    None => SearchAction::OutOfTurn,
                }
            },
        }
    }

    fn end_at(&mut self, entry: WeightedNode) -> (action: SearchAction)
        requires
            old(self).wf(),
            entry.index < old(self).state().view.nodes.len(),
        ensures
            final(self).wf(),
            ends_at(old(self).state(), entry, final(self).state(), action),
    {
        self.phase = Phase::Done;
        let (path, update) = self.search.finish(&entry);
        SearchAction::Found(path, update)
    }

    fn pass(&mut self, entry: WeightedNode, clock: Clock) -> (action: SearchAction)
        requires
            old(self).wf(),
            entry_known(old(self).state().view, Phase::Expanding(entry)),
        ensures
            final(self).wf(),
            passes(old(self).state(), entry, clock, final(self).state(), action),
    {
        if self.search.is_stale(&entry) {
            return self.go_on();
        }
        let node = match self.search.get_index(entry.index) {
            Some(record) => record.ident,
            None => { return SearchAction::OutOfTurn; },
        };
        self.phase = Phase::Expanding(entry);
        let snapshot = if is_snapshot_due(self.search.nodes_considered(), clock.millis_since_update) {
            Some(self.search.progress(entry.index, clock.elapsed_millis))
        } else {
            None
        };
        SearchAction::Expand(node, self.search.allow_turnaround(), snapshot)
    }

    /// Takes what the caller tells and says what to do next: see
    /// [`stepped`].
    pub fn step(&mut self, event: SearchEvent) -> (action: SearchAction)
        requires
            old(self).wf(),
        ensures
            final(self).wf(),
            stepped(old(self).state(), event, final(self).state(), action),
    {
        match (self.phase, event) {
            (Phase::Idle, SearchEvent::Begin) => self.go_on(),
            (Phase::Measuring(entry), SearchEvent::Distance(distance, clock)) => {
                if distance < GOAL_RADIUS {
                    self.end_at(entry)
                } else if distance < 2 * GOAL_RADIUS {
                    self.phase = Phase::MeasuringBehind(entry);
                    match self.search.get_index(entry.index) {
                        Some(record) => SearchAction::MeasureBehind(record.ident),
                        None => SearchAction::OutOfTurn,
                    }
                } else {
                    self.pass(entry, clock)
                }
            },
            (Phase::MeasuringBehind(entry), SearchEvent::BehindDistance(distance, clock)) => {
                if distance < GOAL_RADIUS {
                    self.end_at(entry)
                } else {
                    self.pass(entry, clock)
                }
            },
            (Phase::Expanding(entry), SearchEvent::Options(neighbors, turnaround, lng_scale)) => {
                self.search.record_turnaround(turnaround);
                self.search.expand(&entry, &neighbors, lng_scale);
                self.go_on()
            },
            _ => SearchAction::OutOfTurn,
        }
    }
}

} // verus!
