//! The physics world: the solver's body, collider and joint sets with the
//! solver state that advances them, and the handle-based operations on them.
use vstd::prelude::*;
use crate::handle::{ColliderKey, JointHandle, PhysicsHandle};
use crate::solver::{
    collider_parents, joint_links, live_bodies, new_body_set, new_collider_set, new_joint_set,
};
use rapier2d::dynamics::{
    CCDSolver, GenericJoint, ImpulseJointHandle, ImpulseJointSet, IntegrationParameters,
    IslandManager, MultibodyJointSet, RigidBody, RigidBodyHandle, RigidBodySet,
};
use rapier2d::geometry::{BroadPhase, Collider, ColliderHandle, ColliderSet, NarrowPhase};
use rapier2d::math::Vector;
use rapier2d::pipeline::{PhysicsPipeline, QueryPipeline};

verus! {

/// Owner of every body, collider and joint of the simulation, and of the
/// fixed-step solver that advances them. The sets are created together and
/// only ever changed together, by the operations of this module.
pub struct PhysicsWorld {
    bodies: RigidBodySet,
    colliders: ColliderSet,
    joints: ImpulseJointSet,
    islands: IslandManager,
    multibody_joints: MultibodyJointSet,
    integration_parameters: IntegrationParameters,
    physics_pipeline: PhysicsPipeline,
    broad_phase: BroadPhase,
    narrow_phase: NarrowPhase,
    ccd_solver: CCDSolver,
    query_pipeline: QueryPipeline,
}

/// Relies on RigidBodySet::len: the number of bodies held (the arena's count
/// of occupied slots).
#[verifier::external_body]
fn body_count(w: &PhysicsWorld) -> (r: usize)
    ensures
        r == live_bodies(w.bodies).len(),
{
    w.bodies.len()
}

/// Relies on RigidBodySet::contains: true when the slot of the handle holds
/// a body of the handle's generation.
#[verifier::external_body]
fn contains_body(w: &PhysicsWorld, h: PhysicsHandle) -> (r: bool)
    ensures
        r == live_bodies(w.bodies).contains(h),
{
    w.bodies.contains(RigidBodyHandle::from_raw_parts(h.index, h.generation))
}

/// Relies on RigidBodySet::insert: the body goes into a slot that held no
/// live body, so its handle differs from every live one. Colliders and
/// joints are untouched.
#[verifier::external_body]
fn insert_body(w: &mut PhysicsWorld, body: RigidBody) -> (r: PhysicsHandle)
    ensures
        !live_bodies(old(w).bodies).contains(r),
        live_bodies(final(w).bodies) == live_bodies(old(w).bodies).insert(r),
        joint_links(final(w).joints) == joint_links(old(w).joints),
        collider_parents(final(w).colliders) == collider_parents(old(w).colliders),
{
    let (index, generation) = w.bodies.insert(body).into_raw_parts();
    PhysicsHandle { index, generation }
}

/// Relies on ColliderSet::insert_with_parent: the collider goes into a free
/// slot and is attached to a live body (it panics on any other), which also
/// lists it among its own colliders; no body or joint is added or removed.
#[verifier::external_body]
fn insert_collider(w: &mut PhysicsWorld, collider: Collider, parent: PhysicsHandle) -> (r: ColliderKey)
    requires
        live_bodies(old(w).bodies).contains(parent),
    ensures
        live_bodies(final(w).bodies) == live_bodies(old(w).bodies),
        joint_links(final(w).joints) == joint_links(old(w).joints),
        !collider_parents(old(w).colliders).dom().contains(r),
        collider_parents(final(w).colliders) == collider_parents(old(w).colliders).insert(r, parent),
{
    let (index, generation) = w.colliders.insert_with_parent(
        collider,
        RigidBodyHandle::from_raw_parts(parent.index, parent.generation),
        &mut w.bodies,
    ).into_raw_parts();
    ColliderKey { index, generation }
}

/// Relies on RigidBodySet::remove with its attached colliders. A handle that
/// holds no live body changes nothing. A live one leaves the body set; the
/// colliders in its own list leave the collider set, and the joint set drops
/// the joints it records under the body's handle. Within one world, where
/// colliders are attached only by `insert_collider` and joints only join two
/// distinct live bodies by `insert_joint`, those are exactly the colliders
/// whose parent it is and the joints that touch it.
#[verifier::external_body]
fn remove_body(w: &mut PhysicsWorld, h: PhysicsHandle)
    ensures
        live_bodies(final(w).bodies) == live_bodies(old(w).bodies).remove(h),
        !live_bodies(old(w).bodies).contains(h) ==> joint_links(final(w).joints) == joint_links(old(w).joints),
        live_bodies(old(w).bodies).contains(h) ==> joint_links(final(w).joints) == joint_links(old(w).joints).restrict(
            joint_links(old(w).joints).dom().filter(|j: JointHandle|
                joint_links(old(w).joints)[j].0 != h && joint_links(old(w).joints)[j].1 != h)),
        !live_bodies(old(w).bodies).contains(h) ==> collider_parents(final(w).colliders) == collider_parents(old(w).colliders),
        live_bodies(old(w).bodies).contains(h) ==> collider_parents(final(w).colliders) == collider_parents(old(w).colliders).restrict(
            collider_parents(old(w).colliders).dom().filter(|c: ColliderKey| collider_parents(old(w).colliders)[c] != h)),
{
    let _ = w.bodies.remove(
        RigidBodyHandle::from_raw_parts(h.index, h.generation),
        &mut w.islands,
        &mut w.colliders,
        &mut w.joints,
        &mut w.multibody_joints,
        true,
    );
}

/// Relies on ImpulseJointSet::insert: the joint gets a handle that no held
/// joint has, and links the two bodies given. They must be live and
/// distinct: the joint set keeps a per-body record indexed by the body's
/// slot, and a body joined to itself would get two records.
#[verifier::external_body]
fn insert_joint(w: &mut PhysicsWorld, body1: PhysicsHandle, body2: PhysicsHandle, joint: GenericJoint) -> (r: JointHandle)
    requires
        live_bodies(old(w).bodies).contains(body1),
        live_bodies(old(w).bodies).contains(body2),
        body1 != body2,
    ensures
        live_bodies(final(w).bodies) == live_bodies(old(w).bodies),
        collider_parents(final(w).colliders) == collider_parents(old(w).colliders),
        !joint_links(old(w).joints).dom().contains(r),
        joint_links(final(w).joints) == joint_links(old(w).joints).insert(r, (body1, body2)),
{
    let (index, generation) = w.joints.insert(
        RigidBodyHandle::from_raw_parts(body1.index, body1.generation),
        RigidBodyHandle::from_raw_parts(body2.index, body2.generation),
        joint,
        true,
    ).0.into_raw_parts();
    JointHandle { index, generation }
}

/// Relies on ImpulseJointSet::len: the number of joints held.
#[verifier::external_body]
fn joint_count(w: &PhysicsWorld) -> (r: usize)
    ensures
        r == joint_links(w.joints).dom().len(),
{
    w.joints.len()
}

/// Relies on ImpulseJointSet::get and the joint's `body1` / `body2` fields.
#[verifier::external_body]
fn joint_bodies(w: &PhysicsWorld, j: JointHandle) -> (r: Option<(PhysicsHandle, PhysicsHandle)>)
    ensures
        r == (if joint_links(w.joints).dom().contains(j) {
            Some(joint_links(w.joints)[j])
        } else {
            None
        }),
{
    match w.joints.get(ImpulseJointHandle::from_raw_parts(j.index, j.generation)) {
        Some(joint) => {
            let (i1, g1) = joint.body1.into_raw_parts();
            let (i2, g2) = joint.body2.into_raw_parts();
            Some((PhysicsHandle { index: i1, generation: g1 }, PhysicsHandle { index: i2, generation: g2 }))
        },
        None => None,
    }
}

/// Relies on ColliderSet::get and Collider::parent: the body that a held
/// collider is attached to.
#[verifier::external_body]
fn collider_parent(w: &PhysicsWorld, c: ColliderKey) -> (r: Option<PhysicsHandle>)
    ensures
        r == (if collider_parents(w.colliders).dom().contains(c) {
            Some(collider_parents(w.colliders)[c])
        } else {
            None
        }),
{
    match w.colliders.get(ColliderHandle::from_raw_parts(c.index, c.generation)) {
        Some(collider) => match collider.parent() {
            Some(parent) => {
                let (index, generation) = parent.into_raw_parts();
                Some(PhysicsHandle { index, generation })
            },
            None => None,
        },
        None => None,
    }
}

/// Relies on PhysicsPipeline::step, run on the world's own sets and solver
/// state: one fixed tick that integrates and resolves contacts and joints,
/// moving bodies but neither adding nor removing a body, a collider or a
/// joint, nor changing a collider's parent. The step looks up both bodies
/// of every joint and the parent of every attached collider, and panics on
/// a missing one; hence the demands. The solver's own uniform gravity is a
/// design choice of the sandbox, fixed here: it is off (a zero vector), the
/// pairwise field replacing it. Collision events are not collected.
#[verifier::external_body]
fn step_pipeline(w: &mut PhysicsWorld)
    requires
        forall|j: JointHandle| #[trigger] joint_links(old(w).joints).dom().contains(j) ==> {
            &&& live_bodies(old(w).bodies).contains(joint_links(old(w).joints)[j].0)
            &&& live_bodies(old(w).bodies).contains(joint_links(old(w).joints)[j].1)
        },
        forall|c: ColliderKey| #[trigger] collider_parents(old(w).colliders).dom().contains(c)
            ==> live_bodies(old(w).bodies).contains(collider_parents(old(w).colliders)[c]),
    ensures
        live_bodies(final(w).bodies) == live_bodies(old(w).bodies),
        joint_links(final(w).joints) == joint_links(old(w).joints),
        collider_parents(final(w).colliders) == collider_parents(old(w).colliders),
{
    w.physics_pipeline.step(
        &Vector::zeros(),
        &w.integration_parameters,
        &mut w.islands,
        &mut w.broad_phase,
        &mut w.narrow_phase,
        &mut w.bodies,
        &mut w.colliders,
        &mut w.joints,
        &mut w.multibody_joints,
        &mut w.ccd_solver,
        Some(&mut w.query_pipeline),
        &(),
        &(),
    );
}

/// Relies on RigidBodySet::get_mut, RigidBody::reset_forces,
/// RigidBody::user_force and RigidBody::add_force: the live body's external
/// force becomes the one `carrier` holds (nothing for a handle of no live
/// body). No body, collider or joint is added or removed.
#[verifier::external_body]
fn replace_force(w: &mut PhysicsWorld, h: PhysicsHandle, carrier: &RigidBody)
    ensures
        live_bodies(final(w).bodies) == live_bodies(old(w).bodies),
        joint_links(final(w).joints) == joint_links(old(w).joints),
        collider_parents(final(w).colliders) == collider_parents(old(w).colliders),
{
    if let Some(body) = w.bodies.get_mut(RigidBodyHandle::from_raw_parts(h.index, h.generation)) {
        body.reset_forces(true);
        body.add_force(carrier.user_force(), true);
    }
}

impl PhysicsWorld {
    /// The handles of the live bodies.
    pub closed spec fn live(&self) -> Set<PhysicsHandle> {
        live_bodies(self.bodies)
    }

    /// The live joints, each with the two bodies it links.
    pub closed spec fn links(&self) -> Map<JointHandle, (PhysicsHandle, PhysicsHandle)> {
        joint_links(self.joints)
    }

    /// The bodies that the attached colliders belong to.
    pub closed spec fn attachments(&self) -> Map<ColliderKey, PhysicsHandle> {
        collider_parents(self.colliders)
    }

    /// Finitely many bodies, joints and colliders; every joint links two
    /// live bodies, and every attached collider belongs to a live body.
    pub open spec fn wf(&self) -> bool {
        &&& self.live().finite()
        &&& self.links().dom().finite()
        &&& self.attachments().dom().finite()
        &&& forall|j: JointHandle| #[trigger] self.links().dom().contains(j) ==> {
            &&& self.live().contains(self.links()[j].0)
            &&& self.live().contains(self.links()[j].1)
        }
        &&& forall|c: ColliderKey| #[trigger] self.attachments().dom().contains(c)
            ==> self.live().contains(self.attachments()[c])
    }

    proof fn lemma_unchanged_wf(&self, before: PhysicsWorld)
        requires
            before.wf(),
            self.live() == before.live(),
            self.links() == before.links(),
            self.attachments() == before.attachments(),
        ensures
            self.wf(),
    {
        assert forall|c: ColliderKey| #[trigger] self.attachments().dom().contains(c)
            implies self.live().contains(self.attachments()[c]) by {
            assert(before.attachments().dom().contains(c));
        }
        assert forall|j: JointHandle| #[trigger] self.links().dom().contains(j) implies {
            &&& self.live().contains(self.links()[j].0)
            &&& self.live().contains(self.links()[j].1)
        } by {
            assert(before.links().dom().contains(j));
        }
    }

    pub fn new() -> (r: PhysicsWorld)
        ensures
            r.wf(),
            r.live() == Set::<PhysicsHandle>::empty(),
            r.links().dom() == Set::<JointHandle>::empty(),
            r.attachments().dom() == Set::<ColliderKey>::empty(),
    {
        let r = PhysicsWorld {
            bodies: new_body_set(),
            colliders: new_collider_set(),
            joints: new_joint_set(),
            islands: IslandManager::new(),
            multibody_joints: MultibodyJointSet::new(),
            integration_parameters: IntegrationParameters::default(),
            physics_pipeline: PhysicsPipeline::new(),
            broad_phase: BroadPhase::new(),
            narrow_phase: NarrowPhase::new(),
            ccd_solver: CCDSolver::new(),
            query_pipeline: QueryPipeline::new(),
        };
        assert(r.attachments().dom() =~= Set::<ColliderKey>::empty());
        assert(r.links().dom() =~= Set::<JointHandle>::empty());
        r
    }

    /// Advances the world by one fixed tick; no body, collider or joint is
    /// added or removed.
    pub fn step_physics(&mut self)
        requires
            old(self).wf(),
        ensures
            final(self).wf(),
            final(self).live() == old(self).live(),
            final(self).links() == old(self).links(),
            final(self).attachments() == old(self).attachments(),
    {
        step_pipeline(self);
        proof {
            self.lemma_unchanged_wf(*old(self));
        }
    }

    /// Makes the external force of a live body the one that `carrier` holds
    /// (a body used only to carry a force built elsewhere), in place of its
    /// previous one; does nothing for a handle of no live body.
    pub fn set_user_force(&mut self, body_handle: PhysicsHandle, carrier: &RigidBody)
        requires
            old(self).wf(),
        ensures
            final(self).wf(),
            final(self).live() == old(self).live(),
            final(self).links() == old(self).links(),
            final(self).attachments() == old(self).attachments(),
    {
        replace_force(self, body_handle, carrier);
        proof {
            self.lemma_unchanged_wf(*old(self));
        }
    }

    /// The bodies, for reading.
    pub fn bodies(&self) -> (r: &RigidBodySet)
        ensures
            live_bodies(*r) == self.live(),
    {
        &self.bodies
    }

    /// The colliders, for reading.
    pub fn colliders(&self) -> (r: &ColliderSet)
        ensures
            collider_parents(*r) == self.attachments(),
    {
        &self.colliders
    }

    /// The acceleration structure for spatial probes, as of the last step.
    pub fn query_pipeline(&self) -> &QueryPipeline {
        &self.query_pipeline
    }

    /// Replaces every set and the solver state with fresh empty ones.
    pub fn reset(&mut self)
        ensures
            final(self).wf(),
            final(self).live() == Set::<PhysicsHandle>::empty(),
            final(self).links().dom() == Set::<JointHandle>::empty(),
            final(self).attachments().dom() == Set::<ColliderKey>::empty(),
    {
        *self = PhysicsWorld::new();
    }

    /// Inserts a body and attaches its collider; the returned handle is not
    /// among the handles live before.
    pub fn add_dynamic(&mut self, body: RigidBody, collider: Collider) -> (r: PhysicsHandle)
        requires
            old(self).wf(),
        ensures
            final(self).wf(),
            !old(self).live().contains(r),
            final(self).live() == old(self).live().insert(r),
            final(self).links() == old(self).links(),
            exists|c: ColliderKey| !old(self).attachments().dom().contains(c)
                && final(self).attachments() == old(self).attachments().insert(c, r),
    {
        let h = insert_body(self, body);
        let c = insert_collider(self, collider, h);
        assert(!old(self).attachments().dom().contains(c)
            && self.attachments() == old(self).attachments().insert(c, h));
        proof {
            assert forall|k: ColliderKey| #[trigger] self.attachments().dom().contains(k)
                implies self.live().contains(self.attachments()[k]) by {
                if k != c {
                    assert(old(self).attachments().dom().contains(k));
                }
            }
            assert forall|j: JointHandle| #[trigger] self.links().dom().contains(j) implies {
                &&& self.live().contains(self.links()[j].0)
                &&& self.live().contains(self.links()[j].1)
            } by {
                assert(old(self).links().dom().contains(j));
            }
        }
        h
    }

    /// Attaches one more collider to a live body; returns the collider's key.
    pub fn add_collider(&mut self, body_handle: PhysicsHandle, collider: Collider) -> (r: ColliderKey)
        requires
            old(self).wf(),
            old(self).live().contains(body_handle),
        ensures
            final(self).wf(),
            final(self).live() == old(self).live(),
            final(self).links() == old(self).links(),
            !old(self).attachments().dom().contains(r),
            final(self).attachments() == old(self).attachments().insert(r, body_handle),
    {
        let c = insert_collider(self, collider, body_handle);
        proof {
            assert forall|k: ColliderKey| #[trigger] self.attachments().dom().contains(k)
                implies self.live().contains(self.attachments()[k]) by {
                if k != c {
                    assert(old(self).attachments().dom().contains(k));
                }
            }
            assert forall|j: JointHandle| #[trigger] self.links().dom().contains(j) implies {
                &&& self.live().contains(self.links()[j].0)
                &&& self.live().contains(self.links()[j].1)
            } by {
                assert(old(self).links().dom().contains(j));
            }
        }
        c
    }

    /// Removes a body, its colliders and every joint attached to it; a handle
    /// of no live body changes nothing (no collider or joint can refer to it
    /// then).
    pub fn remove_physics_object(&mut self, body_handle: PhysicsHandle)
        requires
            old(self).wf(),
        ensures
            final(self).wf(),
            final(self).live() == old(self).live().remove(body_handle),
            final(self).links().dom() =~= old(self).links().dom().filter(|j: JointHandle|
                old(self).links()[j].0 != body_handle && old(self).links()[j].1 != body_handle),
            forall|j: JointHandle| #[trigger] final(self).links().dom().contains(j)
                ==> final(self).links()[j] == old(self).links()[j],
            final(self).attachments() == old(self).attachments().restrict(
                old(self).attachments().dom().filter(|c: ColliderKey| old(self).attachments()[c] != body_handle)),
    {
        remove_body(self, body_handle);
        proof {
            let parents = old(self).attachments();
            let before = old(self).links();
            let kept_c = parents.dom().filter(|c: ColliderKey| parents[c] != body_handle);
            assert(kept_c.subset_of(parents.dom()));
            vstd::set_lib::lemma_len_subset(kept_c, parents.dom());
            assert(self.attachments() =~= parents.restrict(kept_c));
            assert(self.attachments().dom() =~= kept_c);
            let kept = before.dom().filter(|j: JointHandle|
                before[j].0 != body_handle && before[j].1 != body_handle);
            assert(kept.subset_of(before.dom()));
            vstd::set_lib::lemma_len_subset(kept, before.dom());
            assert(self.links().dom() =~= kept);
            assert forall|j: JointHandle| #[trigger] self.links().dom().contains(j) implies {
                &&& self.live().contains(self.links()[j].0)
                &&& self.live().contains(self.links()[j].1)
            } by {
                assert(before.dom().contains(j));
            }
            assert forall|c: ColliderKey| #[trigger] self.attachments().dom().contains(c)
                implies self.live().contains(self.attachments()[c]) by {
                assert(parents.dom().contains(c));
            }
        }
    }

    /// Tethers two distinct live bodies with a joint built by the caller
    /// (a sliding joint along the anchor-to-anchor axis, in this sandbox).
    /// The two ends must differ: the joint set would record a body joined to
    /// itself under two graph nodes, and its per-body record would then lose
    /// one of them.
    pub fn add_prismatic_joint(
        &mut self,
        body_handle1: PhysicsHandle,
        body_handle2: PhysicsHandle,
        joint: GenericJoint,
    ) -> (r: JointHandle)
        requires
            old(self).wf(),
            old(self).live().contains(body_handle1),
            old(self).live().contains(body_handle2),
            body_handle1 != body_handle2,
        ensures
            final(self).wf(),
            final(self).live() == old(self).live(),
            final(self).attachments() == old(self).attachments(),
            !old(self).links().dom().contains(r),
            final(self).links() == old(self).links().insert(r, (body_handle1, body_handle2)),
    {
        let r = insert_joint(self, body_handle1, body_handle2, joint);
        proof {
            assert forall|k: ColliderKey| #[trigger] self.attachments().dom().contains(k)
                implies self.live().contains(self.attachments()[k]) by {
                assert(old(self).attachments().dom().contains(k));
            }
            assert forall|j: JointHandle| #[trigger] self.links().dom().contains(j) implies {
                &&& self.live().contains(self.links()[j].0)
                &&& self.live().contains(self.links()[j].1)
            } by {
                if j != r {
                    assert(old(self).links().dom().contains(j));
                }
            }
        }
        r
    }

    /// The number of live bodies.
    pub fn get_physics_obj_num(&self) -> (r: usize)
        ensures
            r == self.live().len(),
    {
        body_count(self)
    }

    /// The number of live joints.
    pub fn joint_num(&self) -> (r: usize)
        ensures
            r == self.links().dom().len(),
    {
        joint_count(self)
    }

    /// Whether the handle resolves to a live body.
    pub fn contains(&self, body_handle: PhysicsHandle) -> (r: bool)
        ensures
            r == self.live().contains(body_handle),
    {
        contains_body(self, body_handle)
    }

    /// The body that a collider is attached to, or `None` for a collider that
    /// is not held or has no body.
    pub fn get_body_handle_from_collider(&self, collider_handle: ColliderKey) -> (r: Option<PhysicsHandle>)
        ensures
            r == (if self.attachments().dom().contains(collider_handle) {
                Some(self.attachments()[collider_handle])
            } else {
                None
            }),
    {
        collider_parent(self, collider_handle)
    }

    /// The two bodies that a live joint links, or `None` for a handle of no
    /// live joint.
    pub fn joint_bodies(&self, joint_handle: JointHandle) -> (r: Option<(PhysicsHandle, PhysicsHandle)>)
        ensures
            r == (if self.links().dom().contains(joint_handle) {
                Some(self.links()[joint_handle])
            } else {
                None
            }),
    {
        joint_bodies(self, joint_handle)
    }
}

} // verus!
