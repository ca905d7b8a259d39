use ragen::agent::{Agent, AgentIds};
use ragen::satisfaction::{ConstraintCheck, SatisfactionOutcome, SatisfactionScan};

fn agent() -> Agent {
    let mut ids = AgentIds::new();
    Agent::new(&mut ids)
}

/// Runs a scan, answering each request from `checks`; returns the outcome
/// and the indices of the constraints that were evaluated.
fn run(agent: &Agent, checks: &[ConstraintCheck]) -> (SatisfactionOutcome, Vec<usize>) {
    let mut scan: SatisfactionScan = agent.begin_satisfaction(checks.len());
    let mut asked = Vec::new();
    while let Some(k) = scan.next_check() {
        asked.push(k);
        scan.record(checks[k]);
    }
    (scan.outcome(), asked)
}

fn soft(below_full: bool) -> ConstraintCheck {
    ConstraintCheck { hard: false, weighted: true, below_full: Some(below_full) }
}

fn hard(below_full: bool) -> ConstraintCheck {
    ConstraintCheck { hard: true, weighted: true, below_full: Some(below_full) }
}

fn unweighted_hard(below_full: bool) -> ConstraintCheck {
    ConstraintCheck { hard: true, weighted: false, below_full: Some(below_full) }
}

fn unweighted_soft() -> ConstraintCheck {
    ConstraintCheck { hard: false, weighted: false, below_full: None }
}

#[test]
fn no_constraints_is_fully_satisfied() {
    let (o, asked) = run(&agent(), &[]);
    assert!(matches!(o, SatisfactionOutcome::Full));
    assert!(asked.is_empty());
}

#[test]
fn average_over_soft_constraints() {
    let checks = [soft(true), unweighted_soft(), hard(false), soft(false)];
    let (o, asked) = run(&agent(), &checks);
    match o {
        SatisfactionOutcome::Average(v) => assert_eq!(v, vec![0, 3]),
        other => panic!("unexpected {:?}", other),
    }
    assert_eq!(asked, vec![0, 1, 2, 3]);
}

#[test]
fn unsatisfied_hard_constraint_gives_zero_and_stops() {
    let checks = [soft(true), hard(true), soft(true), hard(false)];
    let (o, asked) = run(&agent(), &checks);
    assert!(matches!(o, SatisfactionOutcome::Failed));
    assert_eq!(asked, vec![0, 1]);
}

#[test]
fn only_hard_and_unweighted_constraints_is_fully_satisfied() {
    let checks = [hard(false), unweighted_soft(), hard(false)];
    let (o, _) = run(&agent(), &checks);
    assert!(matches!(o, SatisfactionOutcome::Full));
}

#[test]
fn unsatisfied_hard_constraint_fails_whatever_its_importance() {
    let checks = [soft(true), unweighted_hard(true), soft(true)];
    let (o, asked) = run(&agent(), &checks);
    assert!(matches!(o, SatisfactionOutcome::Failed));
    assert_eq!(asked, vec![0, 1]);
}

#[test]
fn unweighted_soft_constraint_does_not_count() {
    let checks = [unweighted_soft(), soft(true)];
    let (o, _) = run(&agent(), &checks);
    match o {
        SatisfactionOutcome::Average(v) => assert_eq!(v, vec![1]),
        other => panic!("unexpected {:?}", other),
    }
}

#[test]
fn only_soft_constraints_of_no_importance_go_unevaluated() {
    assert!(!ConstraintCheck::must_evaluate(false, false));
    assert!(ConstraintCheck::must_evaluate(false, true));
    assert!(ConstraintCheck::must_evaluate(true, false));
    assert!(ConstraintCheck::must_evaluate(true, true));
}

#[test]
fn outcome_does_not_depend_on_constraints_after_failure() {
    let a = [hard(true), soft(true)];
    let b = [hard(true), hard(true)];
    assert!(matches!(run(&agent(), &a).0, SatisfactionOutcome::Failed));
    assert!(matches!(run(&agent(), &b).0, SatisfactionOutcome::Failed));
}
