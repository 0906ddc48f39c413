use quantum::handle::PhysicsHandle;
use quantum::joint::MyJoint;
use quantum::quant::Spawn;
use quantum::sim::{Minor, Simulation};
use rapier2d::dynamics::{GenericJoint, PrismaticJointBuilder, RigidBodyBuilder};
use rapier2d::geometry::ColliderBuilder;
use rapier2d::na::{Point2, Unit, Vector2};

fn spawn(x: f32, y: f32) -> Spawn<()> {
    Spawn {
        body: RigidBodyBuilder::dynamic().translation(Vector2::new(x, y)).build(),
        collider: ColliderBuilder::ball(5.4).build(),
        key: 7,
        state: (),
    }
}

fn tether(dx: f32, dy: f32) -> GenericJoint {
    let half = Vector2::new(dx / 2.0, dy / 2.0);
    PrismaticJointBuilder::new(Unit::new_normalize(half))
        .local_anchor1(Point2::new(half.x, half.y))
        .local_anchor2(Point2::new(-half.x, -half.y))
        .limits([0.0, 1.0])
        .build()
        .into()
}

fn ring(k: usize) -> Vec<Minor<(), u8>> {
    (0..k)
        .map(|i| {
            let a = i as f32 * 2.0 * std::f32::consts::PI / k as f32;
            let (dx, dy) = (a.cos() * 14.0, a.sin() * 14.0);
            Minor { spawn: spawn(450.0 + dx, 350.0 + dy), joint: tether(dx, dy), link_state: i as u8 }
        })
        .collect()
}

#[test]
fn floor_check_adds_exactly_one_under_the_floor() {
    let mut s: Simulation<(), u8> = Simulation::new(2);
    assert!(s.needs_quant());
    assert!(s.check_quants_num(spawn(1.0, 1.0)));
    assert_eq!(s.count(), 1);
    assert!(s.check_quants_num(spawn(2.0, 1.0)));
    assert_eq!(s.count(), 2);
    assert!(!s.needs_quant());
    let before: Vec<PhysicsHandle> = s.quants.get_iter().iter().map(|q| q.physics_handle).collect();
    assert!(!s.check_quants_num(spawn(3.0, 1.0)));
    assert_eq!(s.count(), 2);
    assert_eq!(s.physics.get_physics_obj_num(), 2);
    for h in before {
        assert!(s.physics.contains(h));
    }
}

#[test]
fn removal_under_the_floor_is_restored_by_one() {
    let mut s: Simulation<(), u8> = Simulation::new(2);
    s.check_quants_num(spawn(1.0, 1.0));
    s.check_quants_num(spawn(2.0, 1.0));
    let victim = s.quants.get_iter()[0].physics_handle;
    s.destroy_quant(victim);
    assert_eq!(s.count(), 1);
    assert_eq!(s.physics.colliders().len(), 1);
    assert!(!s.physics.contains(victim));
    assert!(s.check_quants_num(spawn(3.0, 1.0)));
    assert_eq!(s.count(), 2);
    assert!(!s.check_quants_num(spawn(4.0, 1.0)));
    assert_eq!(s.count(), 2);
}

#[test]
fn assembly_has_one_major_k_minors_k_joints() {
    for k in [3usize, 6, 1, 5] {
        let mut s: Simulation<(), u8> = Simulation::new(0);
        let a = s.add_custom(spawn(450.0, 350.0), ring(k));
        assert_eq!(s.count(), 1 + k);
        assert_eq!(s.physics.get_physics_obj_num(), 1 + k);
        assert_eq!(s.physics.joint_num(), k);
        assert_eq!(a.minors.len(), k);
        assert_eq!(a.joints.len(), k);
        assert_eq!(s.links.len(), k);
        for i in 0..k {
            assert_eq!(s.physics.joint_bodies(a.joints[i]), Some((a.major, a.minors[i])));
            assert_eq!(s.links[i].physics_handle, a.joints[i]);
            assert_ne!(a.minors[i], a.major);
        }
    }
}

#[test]
fn empty_assembly_is_one_quantum() {
    let mut s: Simulation<(), u8> = Simulation::new(0);
    let a = s.add_custom(spawn(0.0, 0.0), Vec::new());
    assert_eq!(s.count(), 1);
    assert_eq!(s.physics.joint_num(), 0);
    assert!(s.physics.contains(a.major));
}

#[test]
fn reset_clears_everything() {
    let mut s: Simulation<(), u8> = Simulation::new(2);
    s.add_custom(spawn(450.0, 350.0), ring(6));
    s.add_custom(spawn(100.0, 100.0), ring(3));
    s.check_quants_num(spawn(1.0, 1.0));
    s.reset();
    assert_eq!(s.count(), 0);
    assert_eq!(s.physics.joint_num(), 0);
    assert_eq!(s.physics.get_physics_obj_num(), 0);
    assert_eq!(s.physics.colliders().len(), 0);
    assert!(s.links.is_empty());
    assert_eq!(s.quant_min_num, 2);
}

#[test]
fn reset_of_an_empty_world() {
    let mut s: Simulation<(), u8> = Simulation::new(2);
    s.reset();
    assert_eq!(s.count(), 0);
    assert_eq!(s.physics.joint_num(), 0);
}

#[test]
fn destroying_a_minor_drops_its_link_only() {
    let mut s: Simulation<(), u8> = Simulation::new(0);
    let a = s.add_custom(spawn(450.0, 350.0), ring(3));
    s.destroy_quant(a.minors[1]);
    assert_eq!(s.count(), 3);
    assert_eq!(s.physics.joint_num(), 2);
    assert!(!s.links[1].is_valid(&s.physics));
    assert_eq!(s.links[1].update(&s.physics), None);
    assert_eq!(s.links[0].update(&s.physics), Some((a.major, a.minors[0])));
    s.prune_links();
    assert_eq!(s.links.len(), 2);
    assert_eq!(s.links[0].physics_handle, a.joints[0]);
    assert_eq!(s.links[1].physics_handle, a.joints[2]);
}

#[test]
fn destroying_the_major_drops_every_joint() {
    let mut s: Simulation<(), u8> = Simulation::new(0);
    let a = s.add_custom(spawn(450.0, 350.0), ring(6));
    s.destroy_quant(a.major);
    assert_eq!(s.count(), 6);
    assert_eq!(s.physics.joint_num(), 0);
    s.prune_links();
    assert!(s.links.is_empty());
}

#[test]
fn link_between_two_bodies() {
    let mut s: Simulation<(), u8> = Simulation::new(0);
    s.check_quants_num(spawn(0.0, 0.0));
    let mut w = s.physics;
    let a = w.add_dynamic(RigidBodyBuilder::dynamic().build(), ColliderBuilder::ball(1.0).build());
    let b = w.add_dynamic(RigidBodyBuilder::dynamic().build(), ColliderBuilder::ball(1.0).build());
    let l = MyJoint::new(a, b, tether(2.0, 0.0), 9u8, &mut w);
    assert!(l.is_valid(&w));
    assert_eq!(l.update(&w), Some((a, b)));
    assert_eq!(l.state, 9);
    let gone = PhysicsHandle::new(a.index, a.generation);
    w.remove_physics_object(gone);
    assert!(!l.is_valid(&w));
    assert_eq!(l.update(&w), None);
}
