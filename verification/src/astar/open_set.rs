//! The open set of the search: a binary min-heap ordered by `f_score`.

use vstd::prelude::*;
use vstd::multiset::Multiset;
use vstd::seq_lib::to_multiset_build;
use vstd::seq_lib::to_multiset_contains;
use vstd::seq_lib::to_multiset_update;
use crate::astar::WeightedNode;

verus! {

/// The place of the parent of the entry at place `i`.
pub open spec fn parent(i: int) -> int {
    (i - 1) / 2
}

/// Every entry is at least as costly as its parent.
pub open spec fn heap_ordered(s: Seq<WeightedNode>) -> bool {
    forall|i: int| 0 < i < s.len() ==> (#[trigger] s[parent(i)]).f_score <= s[i].f_score
}

/// The heap order holds everywhere but between `k` and its parent, and the
/// children of `k` are at least as costly as the parent of `k`.
spec fn ordered_but_above(s: Seq<WeightedNode>, k: int) -> bool {
    &&& forall|i: int|
        0 < i < s.len() && i != k ==> (#[trigger] s[parent(i)]).f_score <= s[i].f_score
    &&& forall|i: int|
        0 < i < s.len() && parent(i) == k && k > 0 ==> s[parent(k)].f_score
            <= (#[trigger] s[i]).f_score
}

/// The heap order holds everywhere but between `k` and its children, which
/// are at least as costly as the parent of `k`.
spec fn ordered_but_below(s: Seq<WeightedNode>, k: int) -> bool {
    &&& forall|i: int|
        0 < i < s.len() && parent(i) != k ==> (#[trigger] s[parent(i)]).f_score <= s[i].f_score
    &&& forall|i: int|
        0 < i < s.len() && parent(i) == k && k > 0 ==> s[parent(k)].f_score
            <= (#[trigger] s[i]).f_score
}

proof fn lemma_swap_keeps_multiset(s: Seq<WeightedNode>, i: int, j: int)
    requires
        0 <= i < s.len(),
        0 <= j < s.len(),
    ensures
        s.update(i, s[j]).update(j, s[i]).to_multiset() =~= s.to_multiset(),
{
    broadcast use to_multiset_update;

    let mid = s.update(i, s[j]);
    assert(mid.to_multiset() =~= s.to_multiset().insert(s[j]).remove(s[i]));
    assert(mid.update(j, s[i]).to_multiset() =~= mid.to_multiset().insert(s[i]).remove(mid[j]));
    assert(s.to_multiset().count(s[j]) > 0) by {
        broadcast use to_multiset_contains;

        assert(s.contains(s[j]));
    }
    assert(s.to_multiset().count(s[i]) > 0) by {
        broadcast use to_multiset_contains;

        assert(s.contains(s[i]));
    }
}

proof fn lemma_root_is_least(s: Seq<WeightedNode>, i: int)
    requires
        heap_ordered(s),
        0 <= i < s.len(),
    ensures
        s[0].f_score <= s[i].f_score,
    decreases i,
{
    if i > 0 {
        lemma_root_is_least(s, parent(i));
        assert(s[parent(i)].f_score <= s[i].f_score);
    }
}

fn swap_entries(items: &mut Vec<WeightedNode>, i: usize, j: usize)
    requires
        i < old(items)@.len(),
        j < old(items)@.len(),
    ensures
        final(items)@ == old(items)@.update(i as int, old(items)@[j as int]).update(
            j as int,
            old(items)@[i as int],
        ),
        final(items)@.to_multiset() == old(items)@.to_multiset(),
{
    let a = items[i];
    let b = items[j];
    items.set(i, b);
    items.set(j, a);
    proof {
        lemma_swap_keeps_multiset(old(items)@, i as int, j as int);
    }
}

fn sift_up(items: &mut Vec<WeightedNode>)
    requires
        old(items)@.len() > 0,
        ordered_but_above(old(items)@, old(items)@.len() - 1),
    ensures
        heap_ordered(final(items)@),
        final(items)@.to_multiset() == old(items)@.to_multiset(),
{
    let mut k: usize = items.len() - 1;
    while k > 0
        invariant
            k < items@.len(),
            ordered_but_above(items@, k as int),
            items@.to_multiset() == old(items)@.to_multiset(),
        ensures
            heap_ordered(items@),
            items@.to_multiset() == old(items)@.to_multiset(),
        decreases k,
    {
        let p: usize = (k - 1) / 2;
        if items[p].f_score <= items[k].f_score {
            break ;
        }
        let ghost before = items@;
        swap_entries(items, p, k);
        proof {
            assert forall|i: int| 0 < i < items@.len() && i != p implies (#[trigger] items@[parent(
                i,
            )]).f_score <= items@[i].f_score by {
                if i == k {
                } else if parent(i) == p {
                    assert(before[parent(i)].f_score <= before[i].f_score);
                } else if parent(i) == k {
                    assert(before[parent(k as int)].f_score <= before[i].f_score);
                } else {
                    assert(before[parent(i)].f_score <= before[i].f_score);
                }
            }
            assert forall|i: int|
                0 < i < items@.len() && parent(i) == p && p > 0 implies items@[parent(
                p as int,
            )].f_score <= (#[trigger] items@[i]).f_score by {
                assert(before[parent(p as int)].f_score <= before[p as int].f_score);
                if i != k {
                    assert(before[parent(i)].f_score <= before[i].f_score);
                }
            }
        }
        k = p;
    }
}

fn sift_down(items: &mut Vec<WeightedNode>)
    requires
        ordered_but_below(old(items)@, 0),
    ensures
        heap_ordered(final(items)@),
        final(items)@.to_multiset() == old(items)@.to_multiset(),
{
    let n: usize = items.len();
    let mut k: usize = 0;
    loop
        invariant
            n == items@.len(),
            k < n || n == 0,
            ordered_but_below(items@, k as int),
            items@.to_multiset() == old(items)@.to_multiset(),
        ensures
            heap_ordered(items@),
            items@.to_multiset() == old(items)@.to_multiset(),
        decreases n - k,
    {
        if k >= n / 2 {
            // no child: 2k + 1 >= n
            assert forall|i: int| 0 < i < items@.len() implies (#[trigger] items@[parent(
                i,
            )]).f_score <= items@[i].f_score by {
                assert(parent(i) != k);
            }
            break ;
        }
        let left: usize = 2 * k + 1;
        let right: usize = left + 1;
        let mut least: usize = left;
        if right < n && items[right].f_score < items[left].f_score {
            least = right;
        }
        if items[k].f_score <= items[least].f_score {
            assert forall|i: int| 0 < i < items@.len() implies (#[trigger] items@[parent(
                i,
            )]).f_score <= items@[i].f_score by {
                if parent(i) == k {
                    assert(i == left || i == right);
                }
            }
            break ;
        }
        let ghost before = items@;
        swap_entries(items, k, least);
        proof {
            assert forall|i: int|
                0 < i < items@.len() && parent(i) != least implies (#[trigger] items@[parent(
                i,
            )]).f_score <= items@[i].f_score by {
                if parent(i) == k {
                    assert(i == left || i == right);
                } else if i == k {
                    assert(before[parent(k as int)].f_score <= before[least as int].f_score);
                } else {
                    assert(before[parent(i)].f_score <= before[i].f_score);
                }
            }
            assert forall|i: int|
                0 < i < items@.len() && parent(i) == least && least > 0 implies items@[parent(
                least as int,
            )].f_score <= (#[trigger] items@[i]).f_score by {
                assert(before[parent(i)].f_score <= before[i].f_score);
            }
        }
        k = least;
    }
}

/// The nodes waiting to be expanded.
pub struct OpenSet {
    items: Vec<WeightedNode>,
}

impl View for OpenSet {
    type V = Multiset<WeightedNode>;

    closed spec fn view(&self) -> Multiset<WeightedNode> {
        self.items@.to_multiset()
    }
}

impl OpenSet {
    /// The entries are in heap order.
    pub closed spec fn wf(&self) -> bool {
        heap_ordered(self.items@)
    }

    /// An open set with no entry.
    pub fn new() -> (set: OpenSet)
        ensures
            set.wf(),
            set@ == Multiset::<WeightedNode>::empty(),
    {
        let set = OpenSet { items: Vec::new() };
        proof {
            set.items@.to_multiset_ensures();
            assert(set@ =~= Multiset::<WeightedNode>::empty());
        }
        set
    }

    /// The number of entries.
    pub fn len(&self) -> (n: usize)
        ensures
            n == self@.len(),
    {
        proof {
            self.items@.to_multiset_ensures();
        }
        self.items.len()
    }

    /// Adds an entry.
    pub fn push(&mut self, node: WeightedNode)
        requires
            old(self).wf(),
        ensures
            final(self).wf(),
            final(self)@ == old(self)@.insert(node),
    {
        self.items.push(node);
        proof {
            broadcast use to_multiset_build;

            let s = self.items@;
            assert(s == old(self).items@.push(node));
            assert forall|i: int| 0 < i < s.len() && i != s.len() - 1 implies (#[trigger] s[parent(
                i,
            )]).f_score <= s[i].f_score by {
                assert(old(self).items@[parent(i)].f_score <= old(self).items@[i].f_score);
            }
        }
        sift_up(&mut self.items);
    }

    /// Takes out an entry of least `f_score`, if there is any entry.
    pub fn pop(&mut self) -> (least: Option<WeightedNode>)
        requires
            old(self).wf(),
        ensures
            final(self).wf(),
            old(self)@.len() == 0 ==> least.is_none() && final(self)@ == old(self)@,
            old(self)@.len() > 0 ==> least.is_some() && old(self)@.contains(least.unwrap())
                && final(self)@ == old(self)@.remove(least.unwrap()) && forall|other: WeightedNode|
                old(self)@.contains(other) ==> least.unwrap().f_score <= other.f_score,
    {
        proof {
            self.items@.to_multiset_ensures();
        }
        let n = self.items.len();
        if n == 0 {
            return None;
        }
        let ghost before = self.items@;
        let root = self.items[0];
        proof {
            broadcast use to_multiset_contains;

            assert(before.contains(root));
            assert forall|other: WeightedNode| before.to_multiset().contains(other) implies root.f_score
                <= other.f_score by {
                let i = choose|i: int| 0 <= i < before.len() && before[i] == other;
                lemma_root_is_least(before, i);
            }
        }
        swap_entries(&mut self.items, 0, n - 1);
        let ghost swapped = self.items@;
        let last = self.items.pop();
        proof {
            assert(last == Some(root));
            let s = self.items@;
            assert(s == swapped.drop_last());
            assert(swapped == s.push(root));
            to_multiset_build(s, root);
            assert(s.to_multiset() =~= before.to_multiset().remove(root));
            assert forall|i: int| 0 < i < s.len() && parent(i) != 0 implies (#[trigger] s[parent(
                i,
            )]).f_score <= s[i].f_score by {
                assert(before[parent(i)].f_score <= before[i].f_score);
            }
        }
        sift_down(&mut self.items);
        Some(root)
    }
}

} // verus!
