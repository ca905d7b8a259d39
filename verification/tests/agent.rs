use ragen::agent::{Agent, AgentIds};

#[test]
fn agent_ids_count_up_from_one() {
    let mut ids = AgentIds::new();
    assert_eq!(ids.next_id(), 1);
    assert_eq!(ids.next_id(), 2);
    assert_eq!(ids.next_id(), 3);
}

#[test]
fn new_agents_have_distinct_ids() {
    let mut ids = AgentIds::new();
    let a = Agent::new(&mut ids);
    let b = Agent::new(&mut ids);
    assert_eq!(a.get_id(), 1);
    assert_eq!(b.get_id(), 2);
    assert_ne!(a.get_id(), b.get_id());
    assert!(!a.is_frozen());
    assert!(!a.is_deleted());
}

#[test]
fn freeze_and_unfreeze() {
    let mut ids = AgentIds::new();
    let mut a = Agent::new(&mut ids);
    a.freeze();
    assert!(a.is_frozen());
    assert_eq!(a.get_id(), 1);
    a.freeze();
    assert!(a.is_frozen());
    a.unfreeze();
    assert!(!a.is_frozen());
    assert_eq!(a.get_id(), 1);
}
