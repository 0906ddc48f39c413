use vstd::prelude::*;

verus! {

/// A generational reference to a rigid body owned by the solver:
/// the arena slot and the generation of the value in that slot.
#[derive(Clone, Copy, Debug, PartialEq, Eq, Structural)]
pub struct PhysicsHandle {
    pub index: u32,
    pub generation: u32,
}

/// A generational reference to a joint owned by the solver.
#[derive(Clone, Copy, Debug, PartialEq, Eq, Structural)]
pub struct JointHandle {
    pub index: u32,
    pub generation: u32,
}

/// A generational reference to a collider owned by the solver.
#[derive(Clone, Copy, Debug, PartialEq, Eq, Structural)]
pub struct ColliderKey {
    pub index: u32,
    pub generation: u32,
}

impl PhysicsHandle {
    pub fn new(index: u32, generation: u32) -> (r: PhysicsHandle)
        ensures
            r.index == index,
            r.generation == generation,
    {
        PhysicsHandle { index, generation }
    }
}

} // verus!
