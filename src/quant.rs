//! A quantum: one circular dynamic body of the sandbox, as the registry
//! holds it. Its transform and visual attributes are a cache of type `A`,
//! refreshed each frame from the physics world by the caller.
use vstd::prelude::*;
use crate::handle::{JointHandle, PhysicsHandle};
use crate::world::PhysicsWorld;
use rapier2d::dynamics::RigidBody;
use rapier2d::geometry::Collider;

verus! {

/// The bound count given to every quantum the sandbox spawns.
pub const DEFAULT_BOUNDS_NUM: usize = 3;

/// What spawning one quantum needs: its body and collider, already placed
/// and shaped, an identity key, and the initial cached state.
pub struct Spawn<A> {
    pub body: RigidBody,
    pub collider: Collider,
    pub key: u64,
    pub state: A,
}

pub struct Quant<A> {
    pub key: u64,
    pub physics_handle: PhysicsHandle,
    pub bounds_num: usize,
    pub bounds: Vec<JointHandle>,
    pub state: A,
}

impl<A> Quant<A> {
    /// Spawns the quantum's body in the world and wraps its fresh handle.
    pub fn new(spawn: Spawn<A>, bounds_num: usize, physics: &mut PhysicsWorld) -> (r: Quant<A>)
        requires
            old(physics).wf(),
        ensures
            final(physics).wf(),
            !old(physics).live().contains(r.physics_handle),
            final(physics).live() == old(physics).live().insert(r.physics_handle),
            final(physics).links() == old(physics).links(),
            r.key == spawn.key,
            r.bounds_num == bounds_num,
            r.bounds@.len() == 0,
            r.state == spawn.state,
    {
        let Spawn { body, collider, key, state } = spawn;
        let physics_handle = physics.add_dynamic(body, collider);
        Quant { key, physics_handle, bounds_num, bounds: Vec::new(), state }
    }
}

} // verus!
