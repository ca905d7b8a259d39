use ragen::activation::{Activation, ActivationAction, ActivationEvent};
use ragen::agent::{Agent, AgentIds};

fn agent() -> Agent {
    let mut ids = AgentIds::new();
    Agent::new(&mut ids)
}

fn sat(satisfied: bool, improved: bool) -> ActivationEvent {
    ActivationEvent::Satisfaction { satisfied, improved }
}

#[test]
fn frozen_agent_does_nothing() {
    let mut a = agent();
    a.freeze();
    let (act, action) = a.begin_activation();
    assert_eq!(action, ActivationAction::Stop);
    assert!(act.is_finished());
}

#[test]
fn satisfied_agent_stops_after_first_computation() {
    let (mut act, action) = agent().begin_activation();
    assert_eq!(action, ActivationAction::ComputeSatisfaction);
    assert_eq!(act.step(sat(true, false)), ActivationAction::Stop);
    assert!(act.is_finished());
}

#[test]
fn no_candidate_ends_activation() {
    let (mut act, _) = agent().begin_activation();
    assert_eq!(act.step(sat(false, false)), ActivationAction::Refresh);
    assert_eq!(act.step(ActivationEvent::Candidates(vec![])), ActivationAction::Stop);
}

#[test]
fn non_improving_cancellable_transformation_is_cancelled() {
    let (mut act, _) = agent().begin_activation();
    assert_eq!(act.step(sat(false, false)), ActivationAction::Refresh);
    assert_eq!(
        act.step(ActivationEvent::Candidates(vec![true, false])),
        ActivationAction::Apply { store_state: true }
    );
    assert_eq!(act.step(sat(false, false)), ActivationAction::Cancel);
    assert!(!act.accepts(&sat(false, false)));
    assert!(act.accepts(&ActivationEvent::Cancelled));
    assert_eq!(act.step(ActivationEvent::Cancelled), ActivationAction::Apply { store_state: false });
    // Not cancellable and no improvement: nothing to undo, no candidate left.
    assert_eq!(act.step(sat(false, false)), ActivationAction::Stop);
}

#[test]
fn improvement_gathers_new_candidates() {
    let (mut act, _) = agent().begin_activation();
    act.step(sat(false, false));
    assert_eq!(
        act.step(ActivationEvent::Candidates(vec![false, true])),
        ActivationAction::Apply { store_state: false }
    );
    assert_eq!(act.step(sat(false, true)), ActivationAction::Refresh);
    assert_eq!(
        act.step(ActivationEvent::Candidates(vec![true])),
        ActivationAction::Apply { store_state: true }
    );
    assert_eq!(act.step(sat(true, true)), ActivationAction::Stop);
    assert!(act.is_finished());
}

#[test]
fn first_report_ignores_improvement_flag() {
    let (mut act, _) = agent().begin_activation();
    assert_eq!(act.step(sat(false, true)), ActivationAction::Refresh);
}
