//! The decisions of a generalisation agent.
//!
//! An agent stands for a map feature. It carries constraints, each with a
//! satisfaction from 0 to 10 and an importance; its own satisfaction is the
//! importance-weighted average of the satisfactions of its soft constraints,
//! or 0 as soon as one of its hard constraints is not satisfied. Activating an
//! agent tries the transformations proposed by its unsatisfied constraints, in
//! order of constraint priority, until the agent is satisfied or no
//! transformation is left.
//!
//! Satisfactions are real numbers; the caller compares them and hands this
//! module the outcome of each comparison, and this module decides what is
//! evaluated, counted, tried, kept or cancelled.

use vstd::prelude::*;

verus! {

// ---------------------------------------------------------------------------
// Identifiers
// ---------------------------------------------------------------------------

/// Hands out agent identifiers: 1, 2, 3, ... in order of creation.
pub struct AgentIds {
    last: u64,
}

impl AgentIds {
    /// The last identifier handed out, 0 before the first one.
    pub closed spec fn last(&self) -> u64 {
        self.last
    }

    /// The identifiers handed out so far.
    pub open spec fn issued(&self) -> Set<u64> {
        Set::new(|id: u64| 1 <= id <= self.last())
    }

    /// A source that has handed out no identifier yet.
    pub fn new() -> (ids: AgentIds)
        ensures
            ids.last() == 0,
            ids.issued() == Set::<u64>::empty(),
    {
        let ids = AgentIds { last: 0 };
        assert(ids.issued() =~= Set::<u64>::empty());
        ids
    }

    /// Whether every identifier has been handed out.
    pub fn exhausted(&self) -> (done: bool)
        ensures
            done == (self.last() == u64::MAX),
    {
        self.last == u64::MAX
    }

    /// The next identifier: one more than the last one, and never handed out
    /// before.
    pub fn next_id(&mut self) -> (id: u64)
        requires
            old(self).last() < u64::MAX,
        ensures
            id == old(self).last() + 1,
            final(self).last() == id,
            !old(self).issued().contains(id),
            final(self).issued() == old(self).issued().insert(id),
    {
        self.last = self.last + 1;
        assert(self.issued() =~= old(self).issued().insert(self.last));
        self.last
    }
}

// ---------------------------------------------------------------------------
// The agent
// ---------------------------------------------------------------------------

/// What an agent is, seen from its contracts.
pub struct AgentView {
    pub id: u64,
    pub deleted: bool,
    pub frozen: bool,
}

/// The state of an agent that its decisions depend on: its identifier,
/// whether it was deleted, and whether it is frozen.
pub struct Agent {
    id: u64,
    deleted: bool,
    frozen: bool,
}

impl View for Agent {
    type V = AgentView;

    closed spec fn view(&self) -> AgentView {
        AgentView { id: self.id, deleted: self.deleted, frozen: self.frozen }
    }
}

impl Agent {
    /// A new agent, with the next identifier of `ids`; it is neither deleted
    /// nor frozen.
    pub fn new(ids: &mut AgentIds) -> (agent: Agent)
        requires
            old(ids).last() < u64::MAX,
        ensures
            agent@.id == old(ids).last() + 1,
            final(ids).last() == agent@.id,
            !old(ids).issued().contains(agent@.id),
            final(ids).issued() == old(ids).issued().insert(agent@.id),
            !agent@.deleted,
            !agent@.frozen,
    {
        let id = ids.next_id();
        Agent { id, deleted: false, frozen: false }
    }

    /// The agent's identifier.
    pub fn get_id(&self) -> (id: u64)
        ensures
            id == self@.id,
    {
        self.id
    }

    /// Whether the agent was deleted.
    pub fn is_deleted(&self) -> (deleted: bool)
        ensures
            deleted == self@.deleted,
    {
        self.deleted
    }

    /// Freezes the agent: activating it then does nothing.
    pub fn freeze(&mut self)
        ensures
            final(self)@ == (AgentView { frozen: true, ..old(self)@ }),
    {
        self.frozen = true;
    }

    /// Unfreezes the agent.
    pub fn unfreeze(&mut self)
        ensures
            final(self)@ == (AgentView { frozen: false, ..old(self)@ }),
    {
        self.frozen = false;
    }

    /// Whether the agent is frozen.
    pub fn is_frozen(&self) -> (frozen: bool)
        ensures
            frozen == self@.frozen,
    {
        self.frozen
    }
}

} // verus!
