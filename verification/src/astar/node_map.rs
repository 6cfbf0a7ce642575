//! The nodes that the search has met, each at a fixed index.

use vstd::prelude::*;
use indexmap::IndexSet;
use rustc_hash::FxBuildHasher;
use crate::astar::Cost;
use crate::astar::NodeData;
use crate::astar::NodeIdent;
use crate::astar::SENTINEL;

verus! {

/// `indexmap::IndexSet`: a set that keeps its items at fixed indices. Opaque
/// here; what it holds is named by [`index_set_items`].
#[verifier::external_type_specification]
#[verifier::external_body]
#[verifier::reject_recursive_types(T)]
#[verifier::reject_recursive_types(S)]
pub struct ExIndexSet<T, S>(IndexSet<T, S>);

/// `rustc_hash::FxBuildHasher`: the hasher of the index set. Opaque here.
#[verifier::external_type_specification]
#[verifier::external_body]
pub struct ExFxBuildHasher(FxBuildHasher);

/// The items of an index set in the order of their indices.
pub uninterp spec fn index_set_items(set: IndexSet<(u32, i32), FxBuildHasher>) -> Seq<(u32, i32)>;

/// `IndexSet::with_hasher`: a set that holds nothing.
#[verifier::external_body]
fn index_set_new() -> (set: IndexSet<(u32, i32), FxBuildHasher>)
    ensures
        index_set_items(set) == Seq::<(u32, i32)>::empty(),
{
    IndexSet::with_hasher(FxBuildHasher)
}

/// `IndexSet::get_index_of`: the index at which the set holds `item`, if it
/// holds it.
#[verifier::external_body]
fn index_set_get_index_of(set: &IndexSet<(u32, i32), FxBuildHasher>, item: (u32, i32)) -> (index:
    Option<usize>)
    ensures
        index.is_none() ==> !index_set_items(*set).contains(item),
        index.is_some() ==> index.unwrap() < index_set_items(*set).len() && index_set_items(
            *set,
        )[index.unwrap() as int] == item,
{
    set.get_index_of(&item)
}

/// `IndexSet::insert_full`: an item that the set holds stays where it is and
/// the set is unchanged; a new item goes to the end. Returns the index of the
/// item and whether it was new.
#[verifier::external_body]
fn index_set_insert_full(set: &mut IndexSet<(u32, i32), FxBuildHasher>, item: (u32, i32)) -> (r: (
    usize,
    bool,
))
    ensures
        r.1 == !index_set_items(*old(set)).contains(item),
        r.1 ==> r.0 == index_set_items(*old(set)).len() && index_set_items(*final(set))
            == index_set_items(*old(set)).push(item),
        !r.1 ==> r.0 < index_set_items(*old(set)).len() && index_set_items(*old(set))[r.0 as int]
            == item && index_set_items(*final(set)) == index_set_items(*old(set)),
{
    set.insert_full(item)
}

/// A node with what the search knows of it.
#[derive(Clone, Copy, Debug)]
pub struct NodeRecord {
    /// The node as it was first met; its location is kept for good.
    pub ident: NodeIdent,
    /// The great-circle distance from that location to the goal in
    /// millimetres.
    pub goal_distance: u64,
    pub data: NodeData,
}

/// Every node but the first came from a node of the table that is strictly
/// cheaper to reach, and the first, the start, came from none and costs
/// nothing.
pub open spec fn linked(nodes: Seq<NodeRecord>) -> bool {
    &&& 0 < nodes.len() <= u32::MAX
    &&& nodes[0].data.came_from == SENTINEL
    &&& nodes[0].data.g_score == 0
    &&& forall|i: int| 0 < i < nodes.len() ==> #[trigger] cheaper_before(nodes, i)
}

/// Node `i` came from a node of the table that is strictly cheaper to reach.
pub open spec fn cheaper_before(nodes: Seq<NodeRecord>, i: int) -> bool {
    &&& nodes[i].data.came_from < nodes.len()
    &&& nodes[nodes[i].data.came_from as int].data.g_score < nodes[i].data.g_score
}

/// No two nodes of the table have the same panorama id and heading.
pub open spec fn distinct(nodes: Seq<NodeRecord>) -> bool {
    forall|i: int, j: int|
        0 <= i < nodes.len() && 0 <= j < nodes.len() && (#[trigger] nodes[i]).ident.key() == (
        #[trigger] nodes[j]).ident.key() ==> i == j
}

/// Whether the table holds a node with the identity `ident`.
pub open spec fn holds(nodes: Seq<NodeRecord>, ident: NodeIdent) -> bool {
    exists|i: int| 0 <= i < nodes.len() && (#[trigger] nodes[i]).ident.key() == ident.key()
}

/// The index of the node with the identity `ident`.
pub open spec fn index_of(nodes: Seq<NodeRecord>, ident: NodeIdent) -> int {
    choose|i: int| 0 <= i < nodes.len() && (#[trigger] nodes[i]).ident.key() == ident.key()
}

/// The indices from node `i` back to the start, following `came_from`.
pub open spec fn chain_back(nodes: Seq<NodeRecord>, i: int) -> Seq<int>
    decreases nodes[i].data.g_score,
    when linked(nodes) && 0 <= i < nodes.len() && (i != 0 ==> cheaper_before(nodes, i))
{
    if i == 0 {
        seq![0int]
    } else {
        seq![i] + chain_back(nodes, nodes[i].data.came_from as int)
    }
}

/// The chain from any node back is made of nodes of the table, begins at the
/// node, ends at the start, and each of its steps follows `came_from`.
pub proof fn lemma_chain_ends_at_start(nodes: Seq<NodeRecord>, i: int)
    requires
        linked(nodes),
        0 <= i < nodes.len(),
    ensures
        chain_back(nodes, i).len() >= 1,
        chain_back(nodes, i).first() == i,
        chain_back(nodes, i).last() == 0,
        nodes[chain_back(nodes, i).last()].data.came_from == SENTINEL,
        forall|k: int|
            0 <= k < chain_back(nodes, i).len() ==> 0 <= #[trigger] chain_back(nodes, i)[k]
                < nodes.len(),
        forall|k: int|
            0 <= k < chain_back(nodes, i).len() - 1 ==> nodes[chain_back(
                nodes,
                i,
            )[k]].data.came_from == #[trigger] chain_back(nodes, i)[k + 1],
    decreases nodes[i].data.g_score,
{
    if i != 0 {
        assert(cheaper_before(nodes, i));
        let p = nodes[i].data.came_from as int;
        lemma_chain_ends_at_start(nodes, p);
        let rest = chain_back(nodes, p);
        let whole = chain_back(nodes, i);
        assert(whole == seq![i] + rest);
        assert forall|k: int| 0 <= k < whole.len() implies 0 <= #[trigger] whole[k]
            < nodes.len() by {
            if k > 0 {
                assert(whole[k] == rest[k - 1]);
            }
        }
        assert forall|k: int| 0 <= k < whole.len() - 1 implies nodes[whole[k]].data.came_from
            == #[trigger] whole[k + 1] by {
            assert(whole[k + 1] == rest[k]);
            if k > 0 {
                assert(whole[k] == rest[k - 1]);
                assert(nodes[rest[k - 1]].data.came_from == rest[(k - 1) + 1]);
            } else {
                assert(rest.first() == p);
            }
        }
    }
}

/// The index holds at each place the key of the node at that place.
spec fn agrees(items: Seq<(u32, i32)>, nodes: Seq<NodeRecord>) -> bool {
    &&& items.len() == nodes.len()
    &&& forall|i: int| 0 <= i < nodes.len() ==> (#[trigger] items[i]) == nodes[i].ident.key()
}

/// The nodes of one search. A node keeps its index for good; the start node
/// has index 0.
pub struct NodeMap {
    index: IndexSet<(u32, i32), FxBuildHasher>,
    records: Vec<NodeRecord>,
}

impl View for NodeMap {
    type V = Seq<NodeRecord>;

    closed spec fn view(&self) -> Seq<NodeRecord> {
        self.records@
    }
}

impl NodeMap {
    /// The table is linked, its nodes are distinct, and its index agrees
    /// with it.
    pub closed spec fn wf(&self) -> bool {
        &&& linked(self.records@)
        &&& agrees(index_set_items(self.index), self.records@)
        &&& index_set_items(self.index).no_duplicates()
    }

    /// What holds of every table: it is linked and its nodes are distinct.
    pub proof fn lemma_wf(&self)
        requires
            self.wf(),
        ensures
            linked(self@),
            distinct(self@),
    {
        let items = index_set_items(self.index);
        assert forall|i: int, j: int|
            0 <= i < self@.len() && 0 <= j < self@.len() && (#[trigger] self@[i]).ident.key() == (
            #[trigger] self@[j]).ident.key() implies i == j by {
            assert(items[i] == self@[i].ident.key());
            assert(items[j] == self@[j].ident.key());
        }
    }

    proof fn lemma_found(&self, ident: NodeIdent, found: Option<usize>)
        requires
            self.wf(),
            found.is_none() ==> !index_set_items(self.index).contains(ident.key()),
            found.is_some() ==> found.unwrap() < index_set_items(self.index).len()
                && index_set_items(self.index)[found.unwrap() as int] == ident.key(),
        ensures
            found.is_some() == holds(self@, ident),
            found.is_some() ==> found.unwrap() == index_of(self@, ident) && found.unwrap()
                < self@.len() && self@[found.unwrap() as int].ident.key() == ident.key(),
    {
        self.lemma_wf();
        let items = index_set_items(self.index);
        if found.is_some() {
            let i = found.unwrap() as int;
            assert(items[i] == self@[i].ident.key());
            assert(holds(self@, ident));
            let j = index_of(self@, ident);
            assert(self@[j].ident.key() == ident.key());
            assert(i == j);
        } else {
            if holds(self@, ident) {
                let j = index_of(self@, ident);
                assert(items[j] == self@[j].ident.key());
                assert(items.contains(ident.key()));
            }
        }
    }

    /// A table that holds the start node alone, which is `goal_distance`
    /// from the goal.
    pub fn new(start: NodeIdent, goal_distance: u64) -> (map: NodeMap)
        ensures
            map.wf(),
            map@ == seq![
                NodeRecord {
                    ident: start,
                    goal_distance,
                    data: NodeData { came_from: SENTINEL, g_score: 0 },
                },
            ],
    {
        let mut index = index_set_new();
        let key = (start.pano.id.0, start.heading);
        assert(!index_set_items(index).contains(key));
        let _ = index_set_insert_full(&mut index, key);
        let mut records: Vec<NodeRecord> = Vec::new();
        records.push(
            NodeRecord {
                ident: start,
                goal_distance,
                data: NodeData { came_from: SENTINEL, g_score: 0 },
            },
        );
        proof {
            let items = index_set_items(index);
            assert(items =~= seq![key]);
        }
        NodeMap { index, records }
    }

    /// The number of nodes.
    pub fn len(&self) -> (n: usize)
        ensures
            n == self@.len(),
    {
        self.records.len()
    }

    /// The node at `index`.
    pub fn get_index(&self, index: u32) -> (record: Option<NodeRecord>)
        ensures
            record == if index < self@.len() {
                Some(self@[index as int])
            } else {
                None
            },
    {
        if (index as usize) < self.records.len() {
            Some(self.records[index as usize])
        } else {
            None
        }
    }

    /// The index of the node with the identity `ident`, if the table holds
    /// one.
    pub fn get_index_of(&self, ident: &NodeIdent) -> (found: Option<u32>)
        requires
            self.wf(),
        ensures
            found.is_some() == holds(self@, *ident),
            found.is_some() ==> found.unwrap() == index_of(self@, *ident) && found.unwrap()
                < self@.len() && self@[found.unwrap() as int].ident.key() == ident.key(),
    {
        let key = (ident.pano.id.0, ident.heading);
        let found = index_set_get_index_of(&self.index, key);
        proof {
            self.lemma_found(*ident, found);
        }
        match found {
            Some(i) => Some(i as u32),
            None => None,
        }
    }

    /// Records that `ident`, which is `goal_distance` from the goal, can be
    /// reached from the node `came_from` at the cost `g_score`. A node that
    /// the table holds takes the new path if it is strictly cheaper than the
    /// known one, and keeps its location and its distance to the goal; a
    /// node that it does not hold is added at the end, unless the table is
    /// full. Returns the index of the node if it was added or improved.
    pub fn relax(
        &mut self,
        ident: NodeIdent,
        goal_distance: u64,
        came_from: u32,
        g_score: Cost,
    ) -> (changed: Option<u32>)
        requires
            old(self).wf(),
            came_from < old(self)@.len(),
            old(self)@[came_from as int].data.g_score < g_score,
        ensures
            final(self).wf(),
            changed == relaxed_index(old(self)@, ident, g_score),
            final(self)@ == relaxed(old(self)@, ident, goal_distance, came_from, g_score),
    {
        proof {
            self.lemma_wf();
        }
        let data = NodeData { came_from, g_score };
        match self.get_index_of(&ident) {
            Some(i) => {
                let known = self.records[i as usize];
                if g_score < known.data.g_score {
                    self.records.set(
                        i as usize,
                        NodeRecord { ident: known.ident, goal_distance: known.goal_distance, data },
                    );
                    proof {
                        assert forall|k: int| 0 <= k < self.records@.len() implies (
                        #[trigger] index_set_items(self.index)[k]) == self.records@[k].ident.key() by {
                            assert(index_set_items(self.index)[k] == old(
                                self,
                            ).records@[k].ident.key());
                        }
                        assert forall|k: int| 0 < k < self.records@.len() implies #[trigger] cheaper_before(
                            self.records@,
                            k,
                        ) by {
                            assert(cheaper_before(old(self).records@, k));
                            assert(cheaper_before(old(self).records@, i as int));
                        }
                    }
                    Some(i)
                } else {
                    None
                }
            },
            None => {
                if self.records.len() >= u32::MAX as usize {
                    return None;
                }
                let key = (ident.pano.id.0, ident.heading);
                let at: u32 = self.records.len() as u32;
                let _ = index_set_insert_full(&mut self.index, key);
                self.records.push(NodeRecord { ident, goal_distance, data });
                proof {
                    assert forall|k: int| 0 <= k < self.records@.len() implies (
                    #[trigger] index_set_items(self.index)[k]) == self.records@[k].ident.key() by {
                        if k < old(self).records@.len() {
                            assert(index_set_items(old(self).index)[k] == old(
                                self,
                            ).records@[k].ident.key());
                        }
                    }
                    assert forall|k: int| 0 < k < self.records@.len() implies #[trigger] cheaper_before(
                        self.records@,
                        k,
                    ) by {
                        if k < old(self).records@.len() {
                            assert(cheaper_before(old(self).records@, k));
                        }
                    }
                    vstd::seq_lib::lemma_no_dup_in_concat(
                        index_set_items(old(self).index),
                        seq![key],
                    );
                    assert(index_set_items(self.index) =~= index_set_items(old(self).index)
                        + seq![key]);
                }
                Some(at)
            },
        }
    }
}

/// The index that a relaxation changes, if it changes any.
pub open spec fn relaxed_index(nodes: Seq<NodeRecord>, ident: NodeIdent, g_score: Cost) -> Option<
    u32,
> {
    if holds(nodes, ident) {
        if g_score < nodes[index_of(nodes, ident)].data.g_score {
            Some(index_of(nodes, ident) as u32)
        } else {
            None
        }
    } else if nodes.len() < u32::MAX {
        Some(nodes.len() as u32)
    } else {
        None
    }
}

/// The table after a relaxation.
pub open spec fn relaxed(
    nodes: Seq<NodeRecord>,
    ident: NodeIdent,
    goal_distance: u64,
    came_from: u32,
    g_score: Cost,
) -> Seq<NodeRecord> {
    let data = NodeData { came_from, g_score };
    if holds(nodes, ident) {
        let i = index_of(nodes, ident);
        if g_score < nodes[i].data.g_score {
            nodes.update(
                i,
                NodeRecord { ident: nodes[i].ident, goal_distance: nodes[i].goal_distance, data },
            )
        } else {
            nodes
        }
    } else if nodes.len() < u32::MAX {
        nodes.push(NodeRecord { ident, goal_distance, data })
    } else {
        nodes
    }
}

} // verus!
