//! Which constraints an agent's satisfaction is made of.
//!
//! By default the satisfaction of an agent is the average of the
//! satisfactions of its soft constraints, weighted by their importance, and 0
//! if any hard constraint is unsatisfied. Importance only weighs soft
//! constraints: a soft constraint whose importance is not positive does not
//! count in the average, and a hard constraint makes the satisfaction 0 when
//! unsatisfied whatever its importance. A soft constraint whose importance is
//! not positive is not evaluated at all. The constraints are looked at in
//! order, and the first unsatisfied hard constraint ends the evaluation.
//!
//! For each constraint that the scan asks for, the caller reads its hardness
//! and importance, evaluates it when `ConstraintCheck::must_evaluate` says
//! so, and reports a `ConstraintCheck`; at the end the scan tells which
//! formula gives the agent's satisfaction.

use vstd::prelude::*;
use crate::agent::Agent;

verus! {

/// What the look at one constraint showed.
#[derive(Clone, Copy, Debug, PartialEq, Eq, Structural)]
pub struct ConstraintCheck {
    /// The constraint is hard: it has to be satisfied.
    pub hard: bool,
    /// Its importance is positive.
    pub weighted: bool,
    /// Whether its satisfaction is below the full 10, when it was evaluated;
    /// `None` for a soft constraint whose importance is not positive, which
    /// is not evaluated.
    pub below_full: Option<bool>,
}

/// A constraint is evaluated when it is hard or its importance is positive.
pub open spec fn needs_evaluation(hard: bool, weighted: bool) -> bool {
    hard || weighted
}

/// A check that carries a satisfaction exactly when the constraint is
/// evaluated.
pub open spec fn is_well_reported(c: ConstraintCheck) -> bool {
    c.below_full is Some <==> needs_evaluation(c.hard, c.weighted)
}

impl ConstraintCheck {
    /// Whether a constraint that is `hard` or not, and whose importance is
    /// positive (`weighted`) or not, has to be evaluated: a soft constraint
    /// whose importance is not positive is left alone.
    pub fn must_evaluate(hard: bool, weighted: bool) -> (r: bool)
        ensures
            r == needs_evaluation(hard, weighted),
    {
        hard || weighted
    }
}

/// How the agent's satisfaction is obtained.
#[derive(Debug)]
pub enum SatisfactionOutcome {
    /// Fully satisfied: 10.
    Full,
    /// A hard constraint is unsatisfied: 0.
    Failed,
    /// The importance-weighted average of the satisfactions of the listed
    /// constraints (indices in the constraint list, increasing, never empty).
    Average(Vec<usize>),
}

/// A hard constraint that is not fully satisfied, whatever its importance.
pub open spec fn is_hard_failure(c: ConstraintCheck) -> bool {
    c.hard && c.below_full == Some(true)
}

/// A soft constraint of positive importance: it counts in the average.
pub open spec fn is_counted_soft(c: ConstraintCheck) -> bool {
    !c.hard && c.weighted
}

/// `v` lists, in increasing order, exactly the indices below `n` for which
/// `p` holds.
pub open spec fn lists_exactly(v: Seq<usize>, n: int, p: spec_fn(int) -> bool) -> bool {
    &&& forall|i: int, j: int| 0 <= i < j < v.len() ==> v[i] < v[j]
    &&& forall|i: int| 0 <= i < v.len() ==> v[i] < n && #[trigger] p(v[i] as int)
    &&& forall|k: int| 0 <= k < n && #[trigger] p(k) ==> v.contains(k as usize)
}

/// Some constraint among `checks` is a hard one that is not satisfied.
pub open spec fn has_hard_failure(checks: Seq<ConstraintCheck>) -> bool {
    exists|i: int| 0 <= i < checks.len() && #[trigger] is_hard_failure(checks[i])
}

/// Some constraint among `checks` is a soft one of positive importance.
pub open spec fn has_counted_soft(checks: Seq<ConstraintCheck>) -> bool {
    exists|i: int| 0 <= i < checks.len() && #[trigger] is_counted_soft(checks[i])
}

/// `o` is the satisfaction outcome of an agent (deleted or not) whose
/// constraints evaluate to `checks`: full for a deleted agent or one without
/// constraints, failed when a hard constraint is unsatisfied, else the
/// average over the soft constraints, or full when none counts.
pub open spec fn is_outcome_of(deleted: bool, checks: Seq<ConstraintCheck>, o: SatisfactionOutcome) -> bool {
    if deleted || checks.len() == 0 {
        o is Full
    } else if has_hard_failure(checks) {
        o is Failed
    } else {
        match o {
            SatisfactionOutcome::Full => !has_counted_soft(checks),
            SatisfactionOutcome::Failed => false,
            SatisfactionOutcome::Average(v) => v@.len() > 0 && lists_exactly(
                v@,
                checks.len() as int,
                |k: int| is_counted_soft(checks[k]),
            ),
        }
    }
}

/// The evaluation of an agent's constraints, one at a time.
pub struct SatisfactionScan {
    deleted: bool,
    total: usize,
    checks: Vec<ConstraintCheck>,
    soft: Vec<usize>,
    failed: bool,
}

impl SatisfactionScan {
    /// Whether the agent was deleted when the scan began.
    pub closed spec fn agent_deleted(&self) -> bool {
        self.deleted
    }

    /// Number of constraints of the agent.
    pub closed spec fn total(&self) -> nat {
        self.total as nat
    }

    /// The checks reported so far, for the constraints `0, 1, ...` in order.
    pub closed spec fn checks(&self) -> Seq<ConstraintCheck> {
        self.checks@
    }

    /// No further constraint needs evaluating.
    pub open spec fn finished(&self) -> bool {
        ||| self.agent_deleted()
        ||| self.checks().len() == self.total()
        ||| (self.checks().len() > 0 && is_hard_failure(self.checks().last()))
    }

    /// The scan's internal consistency.
    pub closed spec fn wf(&self) -> bool {
        &&& self.checks@.len() <= self.total
        &&& forall|i: int| 0 <= i < self.checks@.len() ==> is_well_reported(#[trigger] self.checks@[i])
        &&& self.deleted ==> self.checks@.len() == 0
        &&& forall|i: int| 0 <= i < self.checks@.len() - 1 ==> !is_hard_failure(#[trigger] self.checks@[i])
        &&& self.failed == (self.checks@.len() > 0 && is_hard_failure(self.checks@.last()))
        &&& lists_exactly(self.soft@, self.checks@.len() as int, |k: int| is_counted_soft(self.checks@[k]))
    }

    /// The constraint to look at next, or `None` when the scan is over.
    pub fn next_check(&self) -> (next: Option<usize>)
        requires
            self.wf(),
        ensures
            self.finished() <==> next is None,
            next matches Some(k) ==> k == self.checks().len() && k < self.total(),
    {
        if self.deleted || self.failed || self.checks.len() == self.total {
            None
        } else {
            Some(self.checks.len())
        }
    }

    /// Reports the check of the constraint asked for by `next_check`: its
    /// hardness and whether its importance is positive and, when
    /// `ConstraintCheck::must_evaluate` asks for it, whether its evaluated
    /// satisfaction is below 10.
    pub fn record(&mut self, check: ConstraintCheck)
        requires
            old(self).wf(),
            !old(self).finished(),
            is_well_reported(check),
        ensures
            final(self).wf(),
            final(self).checks() == old(self).checks().push(check),
            final(self).total() == old(self).total(),
            final(self).agent_deleted() == old(self).agent_deleted(),
    {
        let k = self.checks.len();
        let ghost old_checks = self.checks@;
        let ghost old_soft = self.soft@;
        if !check.hard && check.weighted {
            self.soft.push(k);
        }
        if check.hard {
            if let Some(true) = check.below_full {
                self.failed = true;
            }
        }
        self.checks.push(check);
        proof {
            let new_checks = self.checks@;
            assert(new_checks.last() == check);
            assert forall|i: int| 0 <= i < new_checks.len() - 1 implies !is_hard_failure(
                #[trigger] new_checks[i],
            ) by {
                assert(new_checks[i] == old_checks[i]);
                if i == old_checks.len() - 1 {
                    assert(!is_hard_failure(old_checks.last()));
                }
            }
            assert forall|j: int|
                0 <= j < new_checks.len() && #[trigger] is_counted_soft(new_checks[j]) implies self.soft@.contains(
                j as usize,
            ) by {
                if j < k {
                    assert(new_checks[j] == old_checks[j]);
                    assert(is_counted_soft(old_checks[j]));
                    let p = |q: int| is_counted_soft(old_checks[q]);
                    assert(p(j));
                    assert(old_soft.contains(j as usize));
                    let w = choose|w: int| 0 <= w < old_soft.len() && old_soft[w] == j as usize;
                    assert(self.soft@[w] == j as usize);
                } else {
                    assert(self.soft@[self.soft@.len() - 1] == k);
                }
            }
            assert forall|i: int| 0 <= i < self.soft@.len() implies self.soft@[i] < new_checks.len()
                && is_counted_soft(new_checks[self.soft@[i] as int]) by {
                if i < old_soft.len() {
                    let p = |q: int| is_counted_soft(old_checks[q]);
                    assert(p(old_soft[i] as int));
                }
            }
            assert forall|i: int, j: int| 0 <= i < j < self.soft@.len() implies self.soft@[i] < self.soft@[j] by {
                if j < old_soft.len() {
                } else {
                    let p = |q: int| is_counted_soft(old_checks[q]);
                    assert(p(old_soft[i] as int));
                }
            }
            assert(self.failed == (new_checks.len() > 0 && is_hard_failure(new_checks.last())));
            assert(lists_exactly(self.soft@, new_checks.len() as int, |q: int| is_counted_soft(new_checks[q])));
        }
    }

    /// How the agent's satisfaction is obtained, once the scan is over.
    pub fn outcome(&self) -> (o: SatisfactionOutcome)
        requires
            self.wf(),
            self.finished(),
        ensures
            is_outcome_of(self.agent_deleted(), self.checks(), o),
    {
        if self.deleted || self.checks.len() == 0 {
            SatisfactionOutcome::Full
        } else if self.failed {
            proof {
                assert(is_hard_failure(self.checks@[self.checks@.len() - 1]));
            }
            SatisfactionOutcome::Failed
        } else if self.soft.len() == 0 {
            proof {
                if has_counted_soft(self.checks@) {
                    let i = choose|i: int| 0 <= i < self.checks@.len() && #[trigger] is_counted_soft(self.checks@[i]);
                    let p = |q: int| is_counted_soft(self.checks@[q]);
                    assert(p(i));
                    assert(self.soft@.contains(i as usize));
                }
                assert(!has_hard_failure(self.checks@));
            }
            SatisfactionOutcome::Full
        } else {
            proof {
                assert(!has_hard_failure(self.checks@));
            }
            SatisfactionOutcome::Average(self.soft.clone())
        }
    }
}

impl Agent {
    /// Starts evaluating the satisfaction of this agent, whose constraint list
    /// has `constraint_count` entries. A deleted agent, or one without
    /// constraints, needs no evaluation.
    pub fn begin_satisfaction(&self, constraint_count: usize) -> (scan: SatisfactionScan)
        ensures
            scan.wf(),
            scan.checks() == Seq::<ConstraintCheck>::empty(),
            scan.total() == constraint_count,
            scan.agent_deleted() == self@.deleted,
    {
        let scan = SatisfactionScan {
            deleted: self.is_deleted(),
            total: constraint_count,
            checks: Vec::new(),
            soft: Vec::new(),
            failed: false,
        };
        scan
    }
}

/// Stopping at the first unsatisfied hard constraint loses nothing: the
/// outcome of a finished scan is also the outcome of the agent's whole
/// constraint list, whatever the constraints that were not evaluated would
/// have shown.
pub proof fn lemma_unevaluated_constraints_do_not_matter(
    scan: SatisfactionScan,
    all: Seq<ConstraintCheck>,
    o: SatisfactionOutcome,
)
    requires
        scan.wf(),
        scan.finished(),
        all.len() == scan.total(),
        all.take(scan.checks().len() as int) == scan.checks(),
        is_outcome_of(scan.agent_deleted(), scan.checks(), o),
    ensures
        is_outcome_of(scan.agent_deleted(), all, o),
{
    let c = scan.checks();
    if scan.agent_deleted() {
    } else if c.len() == scan.total() {
        assert(all =~= c);
    } else {
        let last = c.len() - 1;
        assert(all[last] == c[last]);
        assert(is_hard_failure(all[last]));
        assert(has_hard_failure(all));
        assert(has_hard_failure(c));
    }
}

} // verus!
