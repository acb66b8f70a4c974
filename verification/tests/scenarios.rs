use boids::boid::{Boid2D, BoidError, Lifecycle};
use boids::flock::Flock2D;
use boids::identity::UNSET_FLOCK_ID;
use boids::properties::BoidProperties;
use boids::scalar::{Scalar, Vector2, Vector3};
use godot::obj::InstanceId;
use glam::{Vec2, Vec3};

fn scalar(value: f32) -> Scalar {
    Scalar::from_bits(value.to_bits())
}

fn number(value: Scalar) -> f32 {
    f32::from_bits(value.to_bits())
}

fn planar(v: Vec2) -> Vector2 {
    Vector2::new(scalar(v.x), scalar(v.y))
}

fn spatial(v: Vec3) -> Vector3 {
    Vector3::new(scalar(v.x), scalar(v.y), scalar(v.z))
}

fn vec2(v: Vector2) -> Vec2 {
    Vec2::new(number(v.x), number(v.y))
}

fn limit(max_speed: f32) -> BoidProperties {
    BoidProperties::new(scalar(max_speed))
}

/// Adds the force to the velocity and holds the sum to the speed limit.
fn steer(vel: Vector2, force: Vector2, max_speed: Scalar) -> Vector2 {
    planar((vec2(vel) + vec2(force)).clamp_length_max(number(max_speed)))
}

/// An agent in the flock 100 with the given velocity and speed limit, and the
/// position it starts from.
fn agent(vel: Vec2, max_speed: f32) -> (Boid2D, Flock2D, Vec2) {
    let mut flock = Flock2D::new(InstanceId::from_i64(100));
    let mut boid = Boid2D::new(InstanceId::from_i64(7));
    assert_eq!(boid.enter_tree(Some(&mut flock), &limit(max_speed)), Ok(()));
    boid.set_velocity(planar(vel));
    (boid, flock, Vec2::new(10.0, 20.0))
}

fn sorted(mut ids: Vec<i64>) -> Vec<i64> {
    ids.sort();
    ids
}

#[test]
fn attach_detach_cycle() {
    let mut flock = Flock2D::new(InstanceId::from_i64(100));
    let mut boid = Boid2D::new(InstanceId::from_i64(7));
    assert_eq!(boid.enter_tree(Some(&mut flock), &limit(50.0)), Ok(()));
    assert_eq!(flock.iter_members(), vec![7]);
    assert_eq!(boid.get_flock_id(), 100);
    assert!(boid.exit_tree(Some(&mut flock)));
    assert_eq!(flock.iter_members(), Vec::<i64>::new());
    assert_eq!(boid.lifecycle(), Lifecycle::Dead);
}

#[test]
fn speed_clamp() {
    let (mut boid, _flock, position) = agent(Vec2::new(30.0, 0.0), 50.0);
    let delta = boid.apply_force(spatial(Vec3::new(40.0, 0.0, 0.0)), steer);
    assert_eq!(vec2(boid.get_velocity()), Vec2::new(50.0, 0.0));
    assert_eq!(position + vec2(delta), position + Vec2::new(50.0, 0.0));
}

#[test]
fn no_clamp_accumulation() {
    let (mut boid, _flock, position) = agent(Vec2::new(0.0, 0.0), 100.0);
    let delta = boid.apply_force(spatial(Vec3::new(3.0, 4.0, 99.0)), steer);
    assert_eq!(vec2(boid.get_velocity()), Vec2::new(3.0, 4.0));
    assert_eq!(position + vec2(delta), position + Vec2::new(3.0, 4.0));
}

#[test]
fn orphan_attach() {
    let mut bystander = Flock2D::new(InstanceId::from_i64(100));
    bystander.register_boid(1);
    let mut boid = Boid2D::new(InstanceId::from_i64(7));
    let result = boid.enter_tree(None, &limit(50.0));
    assert_eq!(result, Err(BoidError::NoFlockParent { boid_id: 7 }));
    let line = format!("{:?}", result);
    assert!(line.contains('7'));
    assert_eq!(boid.lifecycle(), Lifecycle::Unattached);
    assert_eq!(boid.get_flock_id(), UNSET_FLOCK_ID);
    assert_eq!(bystander.iter_members(), vec![1]);
}

#[test]
fn stale_id_tolerance() {
    let mut flock = Flock2D::new(InstanceId::from_i64(100));
    let mut dead = Boid2D::new(InstanceId::from_i64(7));
    let mut alive = Boid2D::new(InstanceId::from_i64(8));
    assert_eq!(dead.enter_tree(Some(&mut flock), &limit(50.0)), Ok(()));
    assert_eq!(alive.enter_tree(Some(&mut flock), &limit(50.0)), Ok(()));
    assert_eq!(sorted(flock.iter_members()), vec![7, 8]);
    drop(dead);
    let steered = flock.tick(|id| id == 8);
    assert_eq!(steered, vec![8]);
    for _id in steered {
        alive.apply_force(spatial(Vec3::new(1.0, 2.0, 0.0)), steer);
    }
    assert_eq!(vec2(alive.get_velocity()), Vec2::new(1.0, 2.0));
    assert_eq!(flock.iter_members(), vec![8]);
}

#[test]
fn two_flocks_one_scene() {
    let mut first = Flock2D::new(InstanceId::from_i64(100));
    let mut second = Flock2D::new(InstanceId::from_i64(200));
    let mut boids = vec![Boid2D::new(InstanceId::from_i64(1)), Boid2D::new(InstanceId::from_i64(2)), Boid2D::new(InstanceId::from_i64(3)), Boid2D::new(InstanceId::from_i64(4))];
    assert_eq!(boids[0].enter_tree(Some(&mut first), &limit(50.0)), Ok(()));
    assert_eq!(boids[1].enter_tree(Some(&mut first), &limit(50.0)), Ok(()));
    assert_eq!(boids[2].enter_tree(Some(&mut second), &limit(50.0)), Ok(()));
    assert_eq!(boids[3].enter_tree(Some(&mut second), &limit(50.0)), Ok(()));

    let before: Vec<Vec2> = boids.iter().map(|boid| vec2(boid.get_velocity())).collect();
    let steered_first = first.tick(|id| (1..=4).contains(&id));
    assert_eq!(sorted(steered_first.clone()), vec![1, 2]);
    for id in steered_first {
        boids[(id - 1) as usize].apply_force(spatial(Vec3::new(1.0, 0.0, 0.0)), steer);
    }
    assert_eq!(vec2(boids[2].get_velocity()), before[2]);
    assert_eq!(vec2(boids[3].get_velocity()), before[3]);
    assert_eq!(sorted(second.iter_members()), vec![3, 4]);

    let steered_second = second.tick(|id| (1..=4).contains(&id));
    assert_eq!(sorted(steered_second.clone()), vec![3, 4]);
    for id in steered_second {
        boids[(id - 1) as usize].apply_force(spatial(Vec3::new(0.0, 1.0, 0.0)), steer);
    }
    assert_eq!(vec2(boids[0].get_velocity()), Vec2::new(1.0, 0.0));
    assert_eq!(vec2(boids[1].get_velocity()), Vec2::new(1.0, 0.0));
    assert_eq!(vec2(boids[2].get_velocity()), Vec2::new(0.0, 1.0));
    assert_eq!(vec2(boids[3].get_velocity()), Vec2::new(0.0, 1.0));
    assert_eq!(sorted(first.iter_members()), vec![1, 2]);
}

#[test]
fn speed_stays_under_the_limit_over_many_forces() {
    let (mut boid, _flock, _) = agent(Vec2::new(0.0, 0.0), 50.0);
    let forces = [
        Vec3::new(40.0, 0.0, 0.0),
        Vec3::new(40.0, 30.0, 5.0),
        Vec3::new(-200.0, 10.0, 0.0),
        Vec3::new(0.5, -0.25, 0.0),
        Vec3::new(1000.0, 1000.0, 1000.0),
        Vec3::new(-3.0, -4.0, 0.0),
    ];
    for force in forces {
        boid.apply_force(spatial(force), steer);
        assert!(vec2(boid.get_velocity()).length() <= 50.0 + 1e-3);
    }
}

#[test]
fn zero_force_keeps_the_velocity_and_moves_by_it() {
    let (mut boid, _flock, position) = agent(Vec2::new(3.0, 4.0), 50.0);
    let delta = boid.apply_force(spatial(Vec3::new(0.0, 0.0, 0.0)), steer);
    assert_eq!(vec2(boid.get_velocity()), Vec2::new(3.0, 4.0));
    assert_eq!(position + vec2(delta), Vec2::new(13.0, 24.0));
}

#[test]
fn clamp_is_a_no_op_under_the_limit() {
    let (mut boid, _flock, _) = agent(Vec2::new(10.0, 0.0), 50.0);
    boid.apply_force(spatial(Vec3::new(20.0, 40.0, 0.0)), steer);
    assert_eq!(vec2(boid.get_velocity()), Vec2::new(30.0, 40.0));
}

#[test]
fn clamp_brings_the_speed_to_the_limit_above_it() {
    let (mut boid, _flock, _) = agent(Vec2::new(30.0, 40.0), 50.0);
    boid.apply_force(spatial(Vec3::new(30.0, 40.0, 0.0)), steer);
    let vel = vec2(boid.get_velocity());
    assert!((vel.length() - 50.0).abs() <= 1e-3);
    assert!((vel - Vec2::new(30.0, 40.0)).length() <= 1e-3);
}

#[test]
fn third_component_of_the_force_is_ignored() {
    let (mut with_z, _first, _) = agent(Vec2::new(30.0, 5.0), 50.0);
    let (mut without_z, _second, _) = agent(Vec2::new(30.0, 5.0), 50.0);
    let moved_with = with_z.apply_force(spatial(Vec3::new(40.0, -7.0, 123.0)), steer);
    let moved_without = without_z.apply_force(spatial(Vec3::new(40.0, -7.0, 0.0)), steer);
    assert_eq!(with_z.get_velocity(), without_z.get_velocity());
    assert_eq!(moved_with, moved_without);
}

#[test]
fn membership_is_two_sided() {
    let mut first = Flock2D::new(InstanceId::from_i64(100));
    let mut second = Flock2D::new(InstanceId::from_i64(200));
    let mut a = Boid2D::new(InstanceId::from_i64(1));
    let mut b = Boid2D::new(InstanceId::from_i64(2));
    assert_eq!(a.enter_tree(Some(&mut first), &limit(50.0)), Ok(()));
    assert_eq!(b.enter_tree(Some(&mut second), &limit(50.0)), Ok(()));
    assert!(first.contains(a.get_id()));
    assert!(second.contains(b.get_id()));
    for (flock, boid) in [(&first, &a), (&second, &b)] {
        for id in flock.iter_members() {
            assert_eq!(id, boid.get_id());
            assert_eq!(boid.get_flock_id(), flock.get_id());
        }
    }
}

#[test]
fn no_agent_is_in_two_flocks() {
    let mut first = Flock2D::new(InstanceId::from_i64(100));
    let mut second = Flock2D::new(InstanceId::from_i64(200));
    let mut boid = Boid2D::new(InstanceId::from_i64(1));
    assert_eq!(boid.enter_tree(Some(&mut first), &limit(50.0)), Ok(()));
    assert!(first.contains(1) && !second.contains(1));
    assert!(boid.exit_tree(Some(&mut first)));
    assert_eq!(boid.enter_tree(Some(&mut second), &limit(50.0)), Ok(()));
    assert!(!first.contains(1) && second.contains(1));
    assert_eq!(boid.get_flock_id(), 200);
}
