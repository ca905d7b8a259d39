//! Where an agent's candidate transformations come from.
//!
//! Before proposing transformations, the agent sorts its constraints by
//! priority, highest first, keeping the current order among constraints of
//! equal priority; the sorted order stays. Then each constraint that is not
//! fully satisfied proposes its transformations, in that order. A deleted
//! agent proposes nothing and leaves its constraints as they are.

use vstd::prelude::*;
use crate::agent::Agent;

verus! {

/// `order` lists every index of `priorities` once, highest priority first,
/// and indices of equal priority in increasing order.
pub open spec fn is_priority_order(priorities: Seq<i8>, order: Seq<usize>) -> bool {
    &&& order.len() == priorities.len()
    &&& forall|i: int| 0 <= i < order.len() ==> #[trigger] order[i] < priorities.len()
    &&& forall|i: int, j: int| 0 <= i < j < order.len() ==> order[i] != order[j]
    &&& forall|i: int, j: int|
        0 <= i < j < order.len() ==> priorities[order[i] as int] >= priorities[order[j] as int]
    &&& forall|i: int, j: int|
        0 <= i < j < order.len() && priorities[order[i] as int] == priorities[order[j] as int]
            ==> order[i] < order[j]
}

/// `sources` lists, in increasing order, exactly the positions below `n` of
/// `order` that hold a constraint that is not fully satisfied.
pub open spec fn lists_proposing(sources: Seq<usize>, n: int, order: Seq<usize>, fully_satisfied: Seq<bool>) -> bool {
    &&& forall|i: int, j: int| 0 <= i < j < sources.len() ==> sources[i] < sources[j]
    &&& forall|i: int|
        0 <= i < sources.len() ==> #[trigger] sources[i] < n && !fully_satisfied[order[sources[i] as int] as int]
    &&& forall|k: int| 0 <= k < n && !fully_satisfied[#[trigger] order[k] as int] ==> sources.contains(k as usize)
}

/// The plan for gathering an agent's candidate transformations.
#[derive(Debug)]
pub struct TransformationPlan {
    /// The constraints' new order: `order[k]` is the former index of the
    /// constraint that comes `k`-th.
    pub order: Vec<usize>,
    /// Positions, in the new order, of the constraints that propose
    /// transformations, in increasing order.
    pub sources: Vec<usize>,
}

/// The stable order of the indices of `priorities`, highest priority first.
pub fn priority_order(priorities: &Vec<i8>) -> (order: Vec<usize>)
    ensures
        is_priority_order(priorities@, order@),
{
    let n = priorities.len();
    let mut order: Vec<usize> = Vec::new();
    let mut idx: usize = 0;
    while idx < n
        invariant
            n == priorities.len(),
            idx <= n,
            order.len() == idx,
            forall|i: int| 0 <= i < order.len() ==> #[trigger] order@[i] < idx,
            forall|i: int, j: int| 0 <= i < j < order.len() ==> order@[i] != order@[j],
            forall|i: int, j: int|
                0 <= i < j < order.len() ==> priorities@[order@[i] as int] >= priorities@[order@[j] as int],
            forall|i: int, j: int|
                0 <= i < j < order.len() && priorities@[order@[i] as int] == priorities@[order@[j] as int]
                    ==> order@[i] < order@[j],
        decreases n - idx,
    {
        let p = priorities[idx];
        let mut pos: usize = 0;
        while pos < order.len() && priorities[order[pos]] >= p
            invariant
                n == priorities.len(),
                idx < n,
                pos <= order.len(),
                forall|i: int| 0 <= i < order.len() ==> #[trigger] order@[i] < idx,
                forall|i: int| 0 <= i < pos ==> priorities@[#[trigger] order@[i] as int] >= p,
            decreases order.len() - pos,
        {
            pos = pos + 1;
        }
        let ghost before = order@;
        proof {
            assert forall|i: int| pos <= i < before.len() implies priorities@[before[i] as int] < p by {
                assert(priorities@[before[pos as int] as int] < p);
                if i > pos {
                    assert(priorities@[before[pos as int] as int] >= priorities@[before[i] as int]);
                }
            }
        }
        order.insert(pos, idx);
        proof {
            let after = order@;
            assert(after == before.insert(pos as int, idx));
            assert forall|i: int| 0 <= i < after.len() implies #[trigger] after[i] < idx + 1 by {
                if i < pos {
                    assert(after[i] == before[i]);
                } else if i > pos {
                    assert(after[i] == before[i - 1]);
                }
            }
            assert forall|i: int, j: int| 0 <= i < j < after.len() implies after[i] != after[j] by {
                if i < pos && j > pos {
                    assert(after[i] == before[i]);
                    assert(after[j] == before[j - 1]);
                } else if i < pos && j == pos {
                    assert(after[i] == before[i]);
                } else if i == pos {
                    assert(after[j] == before[j - 1]);
                } else if j < pos {
                    assert(after[i] == before[i]);
                    assert(after[j] == before[j]);
                } else {
                    assert(after[i] == before[i - 1]);
                    assert(after[j] == before[j - 1]);
                }
            }
            assert forall|i: int, j: int| 0 <= i < j < after.len() implies priorities@[after[i] as int]
                >= priorities@[after[j] as int] && (priorities@[after[i] as int] == priorities@[after[j] as int]
                ==> after[i] < after[j]) by {
                if i < pos && j > pos {
                    assert(after[i] == before[i]);
                    assert(after[j] == before[j - 1]);
                    assert(priorities@[before[i] as int] >= p);
                    assert(priorities@[before[j - 1] as int] < p);
                } else if i < pos && j == pos {
                    assert(after[i] == before[i]);
                    assert(priorities@[before[i] as int] >= p);
                } else if i == pos {
                    assert(after[j] == before[j - 1]);
                    assert(priorities@[before[j - 1] as int] < p);
                } else if j < pos {
                    assert(after[i] == before[i]);
                    assert(after[j] == before[j]);
                } else {
                    assert(after[i] == before[i - 1]);
                    assert(after[j] == before[j - 1]);
                }
            }
        }
        idx = idx + 1;
    }
    order
}

impl Agent {
    /// The plan for gathering this agent's candidate transformations, given
    /// the priority of each of its constraints and whether each is fully
    /// satisfied (both by the constraints' current indices). A deleted agent
    /// has no plan: it proposes nothing and its constraints keep their order.
    pub fn transformation_plan(&self, priorities: &Vec<i8>, fully_satisfied: &Vec<bool>) -> (plan:
        Option<TransformationPlan>)
        requires
            priorities.len() == fully_satisfied.len(),
        ensures
            self@.deleted <==> plan is None,
            plan matches Some(p) ==> {
                &&& is_priority_order(priorities@, p.order@)
                &&& lists_proposing(p.sources@, priorities@.len() as int, p.order@, fully_satisfied@)
            },
    {
        if self.is_deleted() {
            return None;
        }
        let order = priority_order(priorities);
        let n = order.len();
        let mut sources: Vec<usize> = Vec::new();
        let mut k: usize = 0;
        while k < n
            invariant
                n == order.len(),
                n == fully_satisfied.len(),
                k <= n,
                is_priority_order(priorities@, order@),
                lists_proposing(sources@, k as int, order@, fully_satisfied@),
            decreases n - k,
        {
            let ghost before = sources@;
            if !fully_satisfied[order[k]] {
                sources.push(k);
            }
            proof {
                assert forall|j: int|
                    0 <= j < k + 1 && !fully_satisfied@[#[trigger] order@[j] as int] implies sources@.contains(
                    j as usize,
                ) by {
                    if j < k {
                        assert(before.contains(j as usize));
                        let w = choose|w: int| 0 <= w < before.len() && before[w] == j as usize;
                        assert(sources@[w] == j as usize);
                    } else {
                        assert(sources@[sources@.len() - 1] == k);
                    }
                }
                assert forall|i: int| 0 <= i < sources@.len() implies #[trigger] sources@[i] < k + 1
                    && !fully_satisfied@[order@[sources@[i] as int] as int] by {
                    if i < before.len() {
                        assert(sources@[i] == before[i]);
                    }
                }
            }
            k = k + 1;
        }
        Some(TransformationPlan { order, sources })
    }
}

/// An order that lists `n` distinct indices below `n` lists each of them.
proof fn lemma_order_lists_every_index(order: Seq<usize>, x: int)
    requires
        forall|i: int| 0 <= i < order.len() ==> #[trigger] order[i] < order.len(),
        forall|i: int, j: int| 0 <= i < j < order.len() ==> order[i] != order[j],
        0 <= x < order.len(),
    ensures
        exists|t: int| 0 <= t < order.len() && order[t] == x,
{
    let n = order.len() as int;
    let values = order.map_values(|v: usize| v as int);
    assert forall|i: int, j: int| 0 <= i < values.len() && 0 <= j < values.len() && i != j implies values[i]
        != values[j] by {
        if i < j {
            assert(order[i] != order[j]);
        } else {
            assert(order[j] != order[i]);
        }
    }
    assert(values.no_duplicates());
    values.unique_seq_to_set();
    vstd::set_lib::lemma_int_range(0, n);
    assert(values.to_set().subset_of(vstd::set_lib::set_int_range(0, n))) by {
        assert forall|v: int| values.to_set().contains(v) implies vstd::set_lib::set_int_range(0, n).contains(v) by {
            let w = choose|w: int| 0 <= w < values.len() && values[w] == v;
            assert(order[w] < n);
        }
    }
    vstd::set_lib::lemma_len_subset(values.to_set(), vstd::set_lib::set_int_range(0, n));
    vstd::set_lib::lemma_subset_equality(values.to_set(), vstd::set_lib::set_int_range(0, n));
    assert(vstd::set_lib::set_int_range(0, n).contains(x));
    assert(values.to_set().contains(x));
    let t = choose|t: int| 0 <= t < values.len() && values[t] == x;
    assert(order[t] == x);
}

/// The priority order of a list of priorities is unique: sorting is
/// deterministic.
pub proof fn lemma_priority_order_unique(priorities: Seq<i8>, o1: Seq<usize>, o2: Seq<usize>)
    requires
        is_priority_order(priorities, o1),
        is_priority_order(priorities, o2),
    ensures
        o1 == o2,
{
    let n = o1.len() as int;
    assert forall|i: int| 0 <= i < n implies o1[i] == o2[i] by {
        lemma_priority_order_prefix_agrees(priorities, o1, o2, i);
    }
    assert(o1 =~= o2);
}

proof fn lemma_priority_order_prefix_agrees(priorities: Seq<i8>, o1: Seq<usize>, o2: Seq<usize>, i: int)
    requires
        is_priority_order(priorities, o1),
        is_priority_order(priorities, o2),
        0 <= i < o1.len(),
    ensures
        o1[i] == o2[i],
    decreases i,
{
    assert forall|k: int| 0 <= k < i implies o1[k] == o2[k] by {
        lemma_priority_order_prefix_agrees(priorities, o1, o2, k);
    }
    let a = o1[i];
    let b = o2[i];
    if a != b {
        lemma_order_lists_every_index(o1, b as int);
        let t = choose|t: int| 0 <= t < o1.len() && o1[t] == b;
        if t < i {
            assert(o2[t] == b);
        }
        assert(t > i);
        lemma_order_lists_every_index(o2, a as int);
        let u = choose|u: int| 0 <= u < o2.len() && o2[u] == a;
        if u < i {
            assert(o1[u] == a);
        }
        assert(u > i);
        assert(priorities[a as int] >= priorities[b as int]);
        assert(priorities[b as int] >= priorities[a as int]);
        assert(a < b);
        assert(b < a);
    }
}

/// Sorting constraints that are already sorted by priority leaves them in
/// place: sorting them once is enough.
pub proof fn lemma_sorting_again_keeps_order(priorities: Seq<i8>, order: Seq<usize>, again: Seq<usize>)
    requires
        priorities.len() <= usize::MAX,
        is_priority_order(priorities, order),
        is_priority_order(order.map_values(|i: usize| priorities[i as int]), again),
    ensures
        forall|k: int| 0 <= k < again.len() ==> again[k] == k,
{
    let sorted = order.map_values(|i: usize| priorities[i as int]);
    let identity = Seq::new(order.len(), |k: int| k as usize);
    assert forall|i: int, j: int| 0 <= i < j < identity.len() implies sorted[identity[i] as int]
        >= sorted[identity[j] as int] by {
        assert(identity[i] == i && identity[j] == j);
        assert(priorities[order[i] as int] >= priorities[order[j] as int]);
    }
    assert forall|i: int| 0 <= i < identity.len() implies #[trigger] identity[i] < sorted.len() by {
        assert(identity[i] == i);
    }
    assert forall|i: int, j: int| 0 <= i < j < identity.len() implies identity[i] != identity[j] by {
        assert(identity[i] == i && identity[j] == j);
    }
    assert(is_priority_order(sorted, identity));
    lemma_priority_order_unique(sorted, identity, again);
}

} // verus!
