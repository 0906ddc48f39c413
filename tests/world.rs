use quantum::handle::{ColliderKey, PhysicsHandle};
use quantum::world::PhysicsWorld;
use rapier2d::dynamics::{GenericJoint, PrismaticJointBuilder, RigidBody, RigidBodyBuilder};
use rapier2d::geometry::{Collider, ColliderBuilder};
use rapier2d::na::{Unit, Vector2};

fn body_at(x: f32, y: f32) -> RigidBody {
    RigidBodyBuilder::dynamic().translation(Vector2::new(x, y)).build()
}

fn ball(r: f32) -> Collider {
    ColliderBuilder::ball(r).build()
}

fn tether() -> GenericJoint {
    PrismaticJointBuilder::new(Unit::new_normalize(Vector2::new(1.0, 0.0)))
        .limits([0.0, 1.0])
        .build()
        .into()
}

#[test]
fn new_world_is_empty() {
    let w = PhysicsWorld::new();
    assert_eq!(w.get_physics_obj_num(), 0);
    assert_eq!(w.joint_num(), 0);
}

#[test]
fn spawned_handles_are_distinct_and_live() {
    let mut w = PhysicsWorld::new();
    let mut handles: Vec<PhysicsHandle> = Vec::new();
    for i in 0..20 {
        let h = w.add_dynamic(body_at(i as f32, 0.0), ball(1.0));
        assert!(!handles.contains(&h));
        assert!(w.contains(h));
        handles.push(h);
    }
    assert_eq!(w.get_physics_obj_num(), 20);
}

#[test]
fn handle_of_removed_body_is_not_reissued() {
    let mut w = PhysicsWorld::new();
    let a = w.add_dynamic(body_at(0.0, 0.0), ball(1.0));
    w.remove_physics_object(a);
    assert!(!w.contains(a));
    let b = w.add_dynamic(body_at(0.0, 0.0), ball(1.0));
    assert_ne!(a, b);
    assert!(w.contains(b));
    assert!(!w.contains(a));
}

#[test]
fn removing_a_body_removes_its_joints_only() {
    let mut w = PhysicsWorld::new();
    let a = w.add_dynamic(body_at(0.0, 0.0), ball(1.0));
    let b = w.add_dynamic(body_at(5.0, 0.0), ball(1.0));
    let c = w.add_dynamic(body_at(10.0, 0.0), ball(1.0));
    let ab = w.add_prismatic_joint(a, b, tether());
    let bc = w.add_prismatic_joint(b, c, tether());
    let ca = w.add_prismatic_joint(c, a, tether());
    assert_eq!(w.joint_num(), 3);
    assert_eq!(w.joint_bodies(ab), Some((a, b)));
    w.remove_physics_object(a);
    assert_eq!(w.get_physics_obj_num(), 2);
    assert_eq!(w.joint_num(), 1);
    assert_eq!(w.joint_bodies(ab), None);
    assert_eq!(w.joint_bodies(ca), None);
    assert_eq!(w.joint_bodies(bc), Some((b, c)));
}

#[test]
fn removing_a_stale_handle_changes_nothing() {
    let mut w = PhysicsWorld::new();
    let a = w.add_dynamic(body_at(0.0, 0.0), ball(1.0));
    let b = w.add_dynamic(body_at(5.0, 0.0), ball(1.0));
    let _ab = w.add_prismatic_joint(a, b, tether());
    w.remove_physics_object(PhysicsHandle::new(77, 3));
    w.remove_physics_object(PhysicsHandle::new(a.index, a.generation + 1));
    assert_eq!(w.get_physics_obj_num(), 2);
    assert_eq!(w.joint_num(), 1);
}

#[test]
fn reset_empties_a_populated_world() {
    let mut w = PhysicsWorld::new();
    let a = w.add_dynamic(body_at(0.0, 0.0), ball(1.0));
    let b = w.add_dynamic(body_at(5.0, 0.0), ball(1.0));
    w.add_prismatic_joint(a, b, tether());
    w.reset();
    assert_eq!(w.get_physics_obj_num(), 0);
    assert_eq!(w.joint_num(), 0);
    assert!(!w.contains(a));
}

#[test]
fn collider_resolves_to_its_body() {
    let mut w = PhysicsWorld::new();
    let a = w.add_dynamic(body_at(0.0, 0.0), ball(1.0));
    let keys: Vec<ColliderKey> = w
        .colliders()
        .iter()
        .map(|(h, _)| {
            let (index, generation) = h.into_raw_parts();
            ColliderKey { index, generation }
        })
        .collect();
    assert_eq!(keys.len(), 1);
    assert_eq!(w.get_body_handle_from_collider(keys[0]), Some(a));
    assert_eq!(
        w.get_body_handle_from_collider(ColliderKey { index: 9, generation: 0 }),
        None
    );
}

#[test]
fn extra_collider_keeps_the_body_count() {
    let mut w = PhysicsWorld::new();
    let a = w.add_dynamic(body_at(0.0, 0.0), ball(1.0));
    let b = w.add_dynamic(body_at(9.0, 0.0), ball(1.0));
    let c = w.add_collider(a, ball(2.0));
    assert_eq!(w.get_physics_obj_num(), 2);
    assert_eq!(w.colliders().len(), 3);
    assert_eq!(w.get_body_handle_from_collider(c), Some(a));
    let d = w.add_collider(b, ball(2.0));
    assert_ne!(c, d);
    assert_eq!(w.get_body_handle_from_collider(d), Some(b));
}

#[test]
fn stepping_keeps_bodies_and_joints() {
    let mut w = PhysicsWorld::new();
    let a = w.add_dynamic(body_at(0.0, 0.0), ball(1.0));
    let b = w.add_dynamic(body_at(3.0, 0.0), ball(1.0));
    let j = w.add_prismatic_joint(a, b, tether());
    for _ in 0..30 {
        w.step_physics();
    }
    assert_eq!(w.get_physics_obj_num(), 2);
    assert_eq!(w.joint_bodies(j), Some((a, b)));
}

#[test]
fn user_force_is_replaced_not_added() {
    let mut w = PhysicsWorld::new();
    let a = w.add_dynamic(body_at(0.0, 0.0), ball(1.0));
    let mut carrier = RigidBodyBuilder::dynamic().build();
    carrier.add_force(Vector2::new(30.0, 0.0), false);
    w.set_user_force(a, &carrier);
    w.set_user_force(a, &carrier);
    let f = w.bodies().iter().next().map(|(_, rb)| rb.user_force().x).unwrap();
    assert_eq!(f, 30.0);
    for _ in 0..10 {
        w.step_physics();
    }
    let moved = w.bodies().iter().next().map(|(_, rb)| rb.translation().x).unwrap();
    assert!(moved > 0.0);
    w.set_user_force(PhysicsHandle::new(5, 5), &carrier);
    assert_eq!(w.get_physics_obj_num(), 1);
}

#[test]
fn removing_a_body_removes_its_colliders_only() {
    let mut w = PhysicsWorld::new();
    let a = w.add_dynamic(body_at(0.0, 0.0), ball(1.0));
    let b = w.add_dynamic(body_at(5.0, 0.0), ball(1.0));
    let extra = w.add_collider(a, ball(2.0));
    let kept = w.add_collider(b, ball(2.0));
    assert_eq!(w.colliders().len(), 4);
    w.remove_physics_object(a);
    assert_eq!(w.colliders().len(), 2);
    assert_eq!(w.get_body_handle_from_collider(extra), None);
    assert_eq!(w.get_body_handle_from_collider(kept), Some(b));
    w.remove_physics_object(a);
    assert_eq!(w.colliders().len(), 2);
}

#[test]
fn stepping_keeps_colliders_attached() {
    let mut w = PhysicsWorld::new();
    let a = w.add_dynamic(body_at(0.0, 0.0), ball(1.0));
    let c = w.add_collider(a, ball(0.5));
    for _ in 0..10 {
        w.step_physics();
    }
    assert_eq!(w.colliders().len(), 2);
    assert_eq!(w.get_body_handle_from_collider(c), Some(a));
}
