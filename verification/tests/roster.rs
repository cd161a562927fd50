use band_ensemble::roster::Roster;

#[test]
fn ensemble_spawn_increments_id() {
    let mut e = Roster::new();
    let id0 = e.spawn_agent();
    let id1 = e.spawn_agent();
    assert_eq!(id0, 0);
    assert_eq!(id1, 1);
}

#[test]
fn ensemble_spawn_increases_agent_count() {
    let mut e = Roster::new();
    e.spawn_agent();
    e.spawn_agent();
    assert_eq!(e.len(), 2);
}

#[test]
fn ensemble_remove_agent_returns_true() {
    let mut e = Roster::new();
    let id = e.spawn_agent();
    assert!(e.remove_agent(id).is_some());
    assert_eq!(e.len(), 0);
}

#[test]
fn ensemble_remove_missing_agent_returns_false() {
    let mut e = Roster::new();
    assert!(e.remove_agent(99).is_none());
}

#[test]
fn ensemble_tick_increments_count() {
    let mut e = Roster::new();
    e.spawn_agent();
    assert_eq!(e.record_tick(), 1);
    assert_eq!(e.tick_count(), 1);
}

#[test]
fn remove_reports_the_position_and_keeps_order() {
    let mut e = Roster::new();
    e.spawn_agent();
    e.spawn_agent();
    e.spawn_agent();
    assert_eq!(e.remove_agent(1), Some(1));
    assert_eq!(e.ids(), &vec![0, 2]);
    assert_eq!(e.remove_agent(1), None);
    assert_eq!(e.ids(), &vec![0, 2]);
}

#[test]
fn spawn_then_remove_restores_the_roster() {
    let mut e = Roster::new();
    e.spawn_agent();
    let id = e.spawn_agent();
    assert_eq!(e.remove_agent(id), Some(1));
    assert_eq!(e.ids(), &vec![0]);
    assert_eq!(e.next_id(), 2);
}

#[test]
fn ids_are_not_reused_after_removal() {
    let mut e = Roster::new();
    let a = e.spawn_agent();
    assert_eq!(e.remove_agent(a), Some(0));
    let b = e.spawn_agent();
    assert_ne!(a, b);
    assert_eq!(b, 1);
    assert!(!e.is_empty());
}

#[test]
fn cloned_roster_keeps_its_state_and_can_grow() {
    let mut e = Roster::new();
    e.spawn_agent();
    e.record_tick();
    let mut c = e.clone();
    assert_eq!(c.ids(), e.ids());
    assert_eq!(c.tick_count(), 1);
    assert_eq!(c.spawn_agent(), 1);
    assert_eq!(c.ids(), &vec![0, 1]);
}
