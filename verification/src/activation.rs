//! Activating an agent: trying transformations to improve its satisfaction.
//!
//! A frozen or deleted agent does nothing. Otherwise its satisfaction is
//! computed; if it is perfect there is nothing to do. Else the current
//! satisfaction becomes the reference and the candidate transformations are
//! gathered, and they are tried in order: the state is stored first when the
//! transformation can be cancelled, the transformation is applied, and the
//! satisfaction is computed again. A perfect satisfaction ends the activation;
//! an improvement over the reference makes the new satisfaction the reference
//! and gathers a fresh list of candidates; otherwise a cancellable
//! transformation is cancelled, and the next candidate is tried. The
//! activation ends when no candidate is left.
//!
//! The caller performs each `ActivationAction` and reports what came of it as
//! an `ActivationEvent`; `Activation::step` decides what happens next.

use vstd::prelude::*;
use crate::agent::Agent;

verus! {

/// What the caller has to do next.
#[derive(Clone, Copy, Debug, PartialEq, Eq, Structural)]
pub enum ActivationAction {
    /// The activation is over.
    Stop,
    /// Compute the agent's satisfaction and report it.
    ComputeSatisfaction,
    /// Make the current satisfaction the reference, gather the candidate
    /// transformations and report, for each, whether it can be cancelled.
    Refresh,
    /// Take the first remaining candidate, store its state first when
    /// `store_state` is set, apply it, compute the satisfaction and report it.
    Apply { store_state: bool },
    /// Cancel the transformation just applied and report it.
    Cancel,
}

/// What came of the last action.
#[derive(Debug)]
pub enum ActivationEvent {
    /// The satisfaction was computed: whether it is perfect, and whether it
    /// improved on the reference by more than the resolution (not looked at
    /// for the first computation).
    Satisfaction { satisfied: bool, improved: bool },
    /// The candidates were gathered: for each, in order, whether it can be
    /// cancelled.
    Candidates(Vec<bool>),
    /// The transformation was cancelled.
    Cancelled,
}

/// Where an activation stands.
#[derive(Clone, Copy, Debug, PartialEq, Eq, Structural)]
pub enum ActivationPhase {
    WaitingFirstSatisfaction,
    WaitingCandidates,
    WaitingOutcome,
    WaitingCancellation,
    Finished,
}

/// An activation in progress.
pub struct Activation {
    phase: ActivationPhase,
    queue: Vec<bool>,
    current: bool,
}

/// The step that takes the next candidate from `queue`, or stops when none
/// is left: `(phase, queue, current)` is the state after it.
pub open spec fn takes_next(
    queue: Seq<bool>,
    phase: ActivationPhase,
    rest: Seq<bool>,
    current: bool,
    action: ActivationAction,
) -> bool {
    if queue.len() == 0 {
        action == ActivationAction::Stop && phase == ActivationPhase::Finished
    } else {
        &&& action == (ActivationAction::Apply { store_state: queue[0] })
        &&& phase == ActivationPhase::WaitingOutcome
        &&& rest == queue.drop_first()
        &&& current == queue[0]
    }
}

impl Activation {
    /// Where the activation stands.
    pub closed spec fn phase(&self) -> ActivationPhase {
        self.phase
    }

    /// Cancellability of the candidates not tried yet, in order.
    pub closed spec fn queue(&self) -> Seq<bool> {
        self.queue@
    }

    /// Whether the transformation being tried can be cancelled.
    pub closed spec fn current(&self) -> bool {
        self.current
    }

    /// How much work is left before the activation either ends or gathers
    /// new candidates: every step that does neither makes it smaller.
    pub open spec fn pending(&self) -> nat {
        match self.phase() {
            ActivationPhase::WaitingOutcome => 2 * self.queue().len() + 2,
            ActivationPhase::WaitingCancellation => 2 * self.queue().len() + 1,
            _ => 0,
        }
    }

    /// The activation expects `event` next.
    pub open spec fn expects(&self, event: ActivationEvent) -> bool {
        match event {
            ActivationEvent::Satisfaction { .. } => self.phase() == ActivationPhase::WaitingFirstSatisfaction
                || self.phase() == ActivationPhase::WaitingOutcome,
            ActivationEvent::Candidates(_) => self.phase() == ActivationPhase::WaitingCandidates,
            ActivationEvent::Cancelled => self.phase() == ActivationPhase::WaitingCancellation,
        }
    }

    /// Whether the activation is over.
    pub fn is_finished(&self) -> (done: bool)
        ensures
            done == (self.phase() == ActivationPhase::Finished),
    {
        self.phase == ActivationPhase::Finished
    }

    /// Whether the activation expects `event` next.
    pub fn accepts(&self, event: &ActivationEvent) -> (ok: bool)
        ensures
            ok == self.expects(*event),
    {
        match event {
            ActivationEvent::Satisfaction { .. } => {
                self.phase == ActivationPhase::WaitingFirstSatisfaction || self.phase
                    == ActivationPhase::WaitingOutcome
            },
            ActivationEvent::Candidates(_) => self.phase == ActivationPhase::WaitingCandidates,
            ActivationEvent::Cancelled => self.phase == ActivationPhase::WaitingCancellation,
        }
    }

    fn take_next(&mut self) -> (action: ActivationAction)
        ensures
            takes_next(old(self).queue(), final(self).phase(), final(self).queue(), final(self).current(), action),
    {
        if self.queue.len() == 0 {
            self.phase = ActivationPhase::Finished;
            ActivationAction::Stop
        } else {
            let first = self.queue.remove(0);
            self.current = first;
            self.phase = ActivationPhase::WaitingOutcome;
            ActivationAction::Apply { store_state: first }
        }
    }

    /// Takes in what came of the last action and decides the next one.
    ///
    /// Between two gatherings of candidates the activation makes progress:
    /// a step that neither stops nor gathers candidates leaves less work
    /// pending than before, and after `n` candidates are gathered at most
    /// `2 * n` is pending.
    pub fn step(&mut self, event: ActivationEvent) -> (action: ActivationAction)
        requires
            old(self).expects(event),
        ensures
            action == ActivationAction::Stop <==> final(self).phase() == ActivationPhase::Finished,
            action == ActivationAction::Refresh <==> final(self).phase() == ActivationPhase::WaitingCandidates,
            event is Candidates ==> final(self).pending() <= 2 * event->0@.len(),
            !(event is Candidates) && action != ActivationAction::Refresh && action != ActivationAction::Stop
                ==> final(self).pending() < old(self).pending(),
            // Candidates are tried in the order gathered: an `Apply` takes the
            // first candidate left and keeps the others in order.
            action matches ActivationAction::Apply { store_state } ==> {
                let src = if event is Candidates {
                    event->0@
                } else {
                    old(self).queue()
                };
                &&& src.len() > 0
                &&& store_state == src[0]
                &&& final(self).queue().len() + 1 == src.len()
                &&& forall|i: int|
                    0 <= i < final(self).queue().len() ==> #[trigger] final(self).queue()[i] == src[i + 1]
            },
            // Every action but `Stop` is answered by the report it asks for.
            action is Apply ==> forall|s: bool, i: bool|
                #[trigger] final(self).expects(ActivationEvent::Satisfaction { satisfied: s, improved: i }),
            action == ActivationAction::Refresh ==> forall|v: Vec<bool>|
                #[trigger] final(self).expects(ActivationEvent::Candidates(v)),
            action == ActivationAction::Cancel ==> final(self).expects(ActivationEvent::Cancelled),
            action == ActivationAction::Stop ==> forall|e: ActivationEvent| !#[trigger] final(self).expects(e),
            match event {
                ActivationEvent::Satisfaction { satisfied, improved } => {
                    if old(self).phase() == ActivationPhase::WaitingFirstSatisfaction {
                        if satisfied {
                            action == ActivationAction::Stop
                        } else {
                            action == ActivationAction::Refresh
                        }
                    } else if satisfied {
                        action == ActivationAction::Stop
                    } else if improved {
                        action == ActivationAction::Refresh
                    } else if old(self).current() {
                        &&& action == ActivationAction::Cancel
                        &&& final(self).phase() == ActivationPhase::WaitingCancellation
                        &&& final(self).queue() == old(self).queue()
                    } else {
                        takes_next(
                            old(self).queue(),
                            final(self).phase(),
                            final(self).queue(),
                            final(self).current(),
                            action,
                        )
                    }
                },
                ActivationEvent::Candidates(flags) => takes_next(
                    flags@,
                    final(self).phase(),
                    final(self).queue(),
                    final(self).current(),
                    action,
                ),
                ActivationEvent::Cancelled => takes_next(
                    old(self).queue(),
                    final(self).phase(),
                    final(self).queue(),
                    final(self).current(),
                    action,
                ),
            },
    {
        match event {
            ActivationEvent::Satisfaction { satisfied, improved } => {
                if satisfied {
                    self.phase = ActivationPhase::Finished;
                    ActivationAction::Stop
                } else if self.phase == ActivationPhase::WaitingFirstSatisfaction || improved {
                    self.phase = ActivationPhase::WaitingCandidates;
                    ActivationAction::Refresh
                } else if self.current {
                    self.phase = ActivationPhase::WaitingCancellation;
                    ActivationAction::Cancel
                } else {
                    self.take_next()
                }
            },
            ActivationEvent::Candidates(flags) => {
                self.queue = flags;
                self.take_next()
            },
            ActivationEvent::Cancelled => self.take_next(),
        }
    }
}

/// Each phase waits for the report of the action that led to it: a
/// satisfaction after the satisfaction was asked for or a transformation was
/// applied, the candidates after they were asked for, the cancellation after
/// it was asked for, and nothing once the activation is over.
pub proof fn lemma_each_phase_expects_its_report(a: Activation, e: ActivationEvent)
    ensures
        (a.phase() == ActivationPhase::WaitingFirstSatisfaction || a.phase() == ActivationPhase::WaitingOutcome)
            && e is Satisfaction ==> a.expects(e),
        a.phase() == ActivationPhase::WaitingCandidates && e is Candidates ==> a.expects(e),
        a.phase() == ActivationPhase::WaitingCancellation && e is Cancelled ==> a.expects(e),
        a.phase() == ActivationPhase::Finished ==> !a.expects(e),
{
}

impl Agent {
    /// Starts activating this agent: a frozen or deleted agent stops at once,
    /// any other first has its satisfaction computed.
    pub fn begin_activation(&self) -> (r: (Activation, ActivationAction))
        ensures
            self@.frozen || self@.deleted ==> r.1 == ActivationAction::Stop && r.0.phase()
                == ActivationPhase::Finished,
            !(self@.frozen || self@.deleted) ==> r.1 == ActivationAction::ComputeSatisfaction
                && r.0.phase() == ActivationPhase::WaitingFirstSatisfaction,
            r.1 == ActivationAction::ComputeSatisfaction ==> forall|s: bool, i: bool|
                #[trigger] r.0.expects(ActivationEvent::Satisfaction { satisfied: s, improved: i }),
            r.1 == ActivationAction::Stop ==> forall|e: ActivationEvent| !#[trigger] r.0.expects(e),
    {
        if self.is_frozen() || self.is_deleted() {
            (Activation { phase: ActivationPhase::Finished, queue: Vec::new(), current: false }, ActivationAction::Stop)
        } else {
            (
                Activation { phase: ActivationPhase::WaitingFirstSatisfaction, queue: Vec::new(), current: false },
                ActivationAction::ComputeSatisfaction,
            )
        }
    }
}

} // verus!
