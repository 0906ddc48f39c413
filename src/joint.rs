//! A joint link: one tether of an assembly, with a cache of type `A` for
//! what drawing it needs (its color and its two endpoints).
use vstd::prelude::*;
use crate::handle::{JointHandle, PhysicsHandle};
use crate::world::PhysicsWorld;
use rapier2d::dynamics::GenericJoint;

verus! {

pub struct MyJoint<A> {
    pub physics_handle: JointHandle,
    pub state: A,
}

impl<A> MyJoint<A> {
    /// Creates the joint between two distinct live bodies.
    pub fn new(
        body_handle1: PhysicsHandle,
        body_handle2: PhysicsHandle,
        joint: GenericJoint,
        state: A,
        physics: &mut PhysicsWorld,
    ) -> (r: MyJoint<A>)
        requires
            old(physics).wf(),
            old(physics).live().contains(body_handle1),
            old(physics).live().contains(body_handle2),
            body_handle1 != body_handle2,
        ensures
            final(physics).wf(),
            final(physics).live() == old(physics).live(),
            !old(physics).links().dom().contains(r.physics_handle),
            final(physics).links() == old(physics).links().insert(r.physics_handle, (body_handle1, body_handle2)),
            r.state == state,
    {
        let physics_handle = physics.add_prismatic_joint(body_handle1, body_handle2, joint);
        MyJoint { physics_handle, state }
    }

    /// Whether the underlying joint still exists.
    pub fn is_valid(&self, physics: &PhysicsWorld) -> (r: bool)
        ensures
            r == physics.links().dom().contains(self.physics_handle),
    {
        physics.joint_bodies(self.physics_handle).is_some()
    }

    /// The two bodies whose positions the cached endpoints should take:
    /// `Some` only when the joint exists and both of its bodies are live;
    /// otherwise the cache is to stay as it is.
    pub fn update(&self, physics: &PhysicsWorld) -> (r: Option<(PhysicsHandle, PhysicsHandle)>)
        ensures
            r == (if physics.links().dom().contains(self.physics_handle)
                && physics.live().contains(physics.links()[self.physics_handle].0)
                && physics.live().contains(physics.links()[self.physics_handle].1) {
                Some(physics.links()[self.physics_handle])
            } else {
                None
            }),
    {
        match physics.joint_bodies(self.physics_handle) {
            Some((b1, b2)) => {
                if physics.contains(b1) && physics.contains(b2) {
                    Some((b1, b2))
                } else {
                    None
                }
            },
            None => None,
        }
    }
}

} // verus!
