use boids::flock::{Flock2D, TickAction};
use godot::obj::InstanceId;
use std::cell::RefCell;

fn sorted(mut ids: Vec<i64>) -> Vec<i64> {
    ids.sort();
    ids
}

#[test]
fn new_flock_is_empty_and_keeps_its_id() {
    let flock = Flock2D::new(InstanceId::from_i64(100));
    assert_eq!(flock.get_id(), 100);
    assert!(flock.is_empty());
    assert_eq!(flock.len(), 0);
    assert_eq!(flock.iter_members(), Vec::<i64>::new());
}

#[test]
fn register_adds_a_member() {
    let mut flock = Flock2D::new(InstanceId::from_i64(1));
    flock.register_boid(7);
    assert!(flock.contains(7));
    assert!(!flock.contains(8));
    assert_eq!(flock.len(), 1);
    assert!(!flock.is_empty());
    assert_eq!(flock.get_id(), 1);
}

#[test]
fn registering_twice_leaves_a_single_occurrence() {
    let mut flock = Flock2D::new(InstanceId::from_i64(1));
    flock.register_boid(7);
    flock.register_boid(7);
    assert_eq!(flock.len(), 1);
    assert_eq!(flock.iter_members(), vec![7]);
    let occurrences = flock.iter_members().iter().filter(|id| **id == 7).count();
    assert_eq!(occurrences, 1);
}

#[test]
fn unregister_removes_a_member() {
    let mut flock = Flock2D::new(InstanceId::from_i64(1));
    flock.register_boid(7);
    flock.register_boid(8);
    assert!(flock.unregister_boid(7));
    assert!(!flock.contains(7));
    assert!(flock.contains(8));
    assert_eq!(flock.iter_members(), vec![8]);
}

#[test]
fn unregister_of_an_unknown_id_reports_it_and_changes_nothing() {
    let mut flock = Flock2D::new(InstanceId::from_i64(1));
    flock.register_boid(8);
    assert!(!flock.unregister_boid(7));
    assert_eq!(flock.iter_members(), vec![8]);
    assert!(flock.unregister_boid(8));
    assert!(!flock.unregister_boid(8));
    assert!(flock.is_empty());
}

#[test]
fn iter_members_lists_each_member_once() {
    let mut flock = Flock2D::new(InstanceId::from_i64(1));
    for id in [5, 3, 9, 3, -4, i64::MAX, i64::MIN, 5] {
        flock.register_boid(id);
    }
    assert_eq!(sorted(flock.iter_members()), vec![i64::MIN, -4, 3, 5, 9, i64::MAX]);
    assert_eq!(flock.len(), 6);
}

#[test]
fn iter_members_is_a_snapshot() {
    let mut flock = Flock2D::new(InstanceId::from_i64(1));
    flock.register_boid(1);
    flock.register_boid(2);
    let snapshot = flock.iter_members();
    flock.register_boid(3);
    flock.unregister_boid(1);
    assert_eq!(sorted(snapshot), vec![1, 2]);
    assert_eq!(sorted(flock.iter_members()), vec![2, 3]);
}

#[test]
fn resolve_steers_a_living_member() {
    let mut flock = Flock2D::new(InstanceId::from_i64(1));
    flock.register_boid(8);
    assert_eq!(flock.resolve(8, true), TickAction::Steer);
    assert!(flock.contains(8));
}

#[test]
fn resolve_drops_a_dead_member() {
    let mut flock = Flock2D::new(InstanceId::from_i64(1));
    flock.register_boid(7);
    flock.register_boid(8);
    assert_eq!(flock.resolve(7, false), TickAction::Skip);
    assert!(!flock.contains(7));
    assert_eq!(flock.iter_members(), vec![8]);
}

#[test]
fn resolve_skips_an_id_that_is_no_member() {
    let mut flock = Flock2D::new(InstanceId::from_i64(1));
    flock.register_boid(8);
    assert_eq!(flock.resolve(9, true), TickAction::Skip);
    assert_eq!(flock.resolve(9, false), TickAction::Skip);
    assert_eq!(flock.iter_members(), vec![8]);
}

#[test]
fn tick_returns_the_living_members() {
    let mut flock = Flock2D::new(InstanceId::from_i64(1));
    for id in 1..=6 {
        flock.register_boid(id);
    }
    let steered = flock.tick(|id| id % 2 == 0);
    assert_eq!(sorted(steered), vec![2, 4, 6]);
    assert_eq!(sorted(flock.iter_members()), vec![2, 4, 6]);
    assert_eq!(flock.get_id(), 1);
}

#[test]
fn tick_asks_about_each_member_once() {
    let mut flock = Flock2D::new(InstanceId::from_i64(1));
    for id in [10, 20, 30] {
        flock.register_boid(id);
    }
    let asked = RefCell::new(Vec::new());
    let steered = flock.tick(|id| {
        asked.borrow_mut().push(id);
        true
    });
    assert_eq!(sorted(asked.into_inner()), vec![10, 20, 30]);
    assert_eq!(sorted(steered), vec![10, 20, 30]);
}

#[test]
fn tick_of_an_empty_flock_steers_nobody() {
    let mut flock = Flock2D::new(InstanceId::from_i64(1));
    let steered = flock.tick(|_| true);
    assert!(steered.is_empty());
    assert!(flock.is_empty());
}

#[test]
fn tick_with_every_member_dead_empties_the_flock() {
    let mut flock = Flock2D::new(InstanceId::from_i64(1));
    flock.register_boid(1);
    flock.register_boid(2);
    let steered = flock.tick(|_| false);
    assert!(steered.is_empty());
    assert!(flock.is_empty());
}
