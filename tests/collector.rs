use quantum::collector::QuantumCollector;
use quantum::handle::PhysicsHandle;
use quantum::quant::{Quant, Spawn, DEFAULT_BOUNDS_NUM};
use quantum::world::PhysicsWorld;
use rapier2d::dynamics::RigidBodyBuilder;
use rapier2d::geometry::ColliderBuilder;
use rapier2d::na::Vector2;

fn spawn(tag: u32) -> Spawn<u32> {
    Spawn {
        body: RigidBodyBuilder::dynamic().translation(Vector2::new(tag as f32 * 10.0, 0.0)).build(),
        collider: ColliderBuilder::ball(4.5).build(),
        key: 1000 + tag as u64,
        state: tag,
    }
}

#[test]
fn new_quant_spawns_its_body() {
    let mut w = PhysicsWorld::new();
    let q = Quant::new(spawn(3), DEFAULT_BOUNDS_NUM, &mut w);
    assert!(w.contains(q.physics_handle));
    assert_eq!(w.get_physics_obj_num(), 1);
    assert_eq!(q.key, 1003);
    assert_eq!(q.state, 3);
    assert_eq!(q.bounds_num, 3);
    assert!(q.bounds.is_empty());
}

#[test]
fn add_get_remove() {
    let mut w = PhysicsWorld::new();
    let mut c: QuantumCollector<u32> = QuantumCollector::new();
    let q1 = Quant::new(spawn(1), DEFAULT_BOUNDS_NUM, &mut w);
    let q2 = Quant::new(spawn(2), DEFAULT_BOUNDS_NUM, &mut w);
    let h1 = c.add_quant(q1);
    let h2 = c.add_quant(q2);
    assert_ne!(h1, h2);
    assert_eq!(c.count(), 2);
    assert_eq!(c.get(h1).map(|q| q.state), Some(1));
    assert_eq!(c.get(h2).map(|q| q.physics_handle), Some(h2));
    c.remove(h1);
    assert_eq!(c.count(), 1);
    assert!(c.get(h1).is_none());
    // the registry does not touch the physics body
    assert!(w.contains(h1));
    c.remove(h1);
    assert_eq!(c.count(), 1);
}

#[test]
fn adding_under_a_stored_handle_replaces() {
    let mut w = PhysicsWorld::new();
    let mut c: QuantumCollector<u32> = QuantumCollector::new();
    let q = Quant::new(spawn(1), DEFAULT_BOUNDS_NUM, &mut w);
    let h = q.physics_handle;
    c.add_quant(q);
    let again = Quant { key: 5, physics_handle: h, bounds_num: 0, bounds: Vec::new(), state: 42 };
    assert_eq!(c.add_quant(again), h);
    assert_eq!(c.count(), 1);
    assert_eq!(c.get(h).map(|q| q.state), Some(42));
}

#[test]
fn add_many_grows_count_by_n() {
    let mut w = PhysicsWorld::new();
    let mut c: QuantumCollector<u32> = QuantumCollector::new();
    c.add_many_quants(vec![spawn(1), spawn(2)], DEFAULT_BOUNDS_NUM, &mut w);
    assert_eq!(c.count(), 2);
    c.add_many_quants((0..7).map(spawn).collect(), DEFAULT_BOUNDS_NUM, &mut w);
    assert_eq!(c.count(), 9);
    assert_eq!(w.get_physics_obj_num(), 9);
    c.add_many_quants(Vec::new(), DEFAULT_BOUNDS_NUM, &mut w);
    assert_eq!(c.count(), 9);
}

#[test]
fn stored_handles_are_unique() {
    let mut w = PhysicsWorld::new();
    let mut c: QuantumCollector<u32> = QuantumCollector::new();
    c.add_many_quants((0..12).map(spawn).collect(), DEFAULT_BOUNDS_NUM, &mut w);
    let hs: Vec<PhysicsHandle> = c.get_iter().iter().map(|q| q.physics_handle).collect();
    assert_eq!(hs.len(), 12);
    for i in 0..hs.len() {
        for j in (i + 1)..hs.len() {
            assert_ne!(hs[i], hs[j]);
        }
    }
}

#[test]
fn set_state_touches_one_entry() {
    let mut w = PhysicsWorld::new();
    let mut c: QuantumCollector<u32> = QuantumCollector::new();
    let h1 = c.add_quant(Quant::new(spawn(1), DEFAULT_BOUNDS_NUM, &mut w));
    let h2 = c.add_quant(Quant::new(spawn(2), DEFAULT_BOUNDS_NUM, &mut w));
    c.set_state(h1, 11);
    assert_eq!(c.get(h1).map(|q| q.state), Some(11));
    assert_eq!(c.get(h2).map(|q| q.state), Some(2));
    c.set_state(PhysicsHandle::new(99, 0), 5);
    assert_eq!(c.count(), 2);
}
