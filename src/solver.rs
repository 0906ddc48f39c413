//! The rigid-body solver's types, the names for what its sets hold (which
//! bodies are live, which joints link which bodies, which collider belongs
//! to which body), and the constructors of empty sets. The operations on
//! the sets stand in `world`, over the whole world at once.
use vstd::prelude::*;
use crate::handle::{ColliderKey, JointHandle, PhysicsHandle};
use rapier2d::dynamics::{
    CCDSolver, GenericJoint, ImpulseJointSet, IntegrationParameters, IslandManager,
    MultibodyJointSet, RigidBody, RigidBodySet,
};
use rapier2d::geometry::{BroadPhase, Collider, ColliderSet, NarrowPhase};
use rapier2d::pipeline::{PhysicsPipeline, QueryPipeline};

verus! {

/// Carried opaquely: rapier's arena of rigid bodies.
#[verifier::external_type_specification]
#[verifier::external_body]
pub struct ExRigidBodySet(RigidBodySet);

/// Carried opaquely: rapier's arena of colliders.
#[verifier::external_type_specification]
#[verifier::external_body]
pub struct ExColliderSet(ColliderSet);

/// Carried opaquely: rapier's set of impulse joints.
#[verifier::external_type_specification]
#[verifier::external_body]
pub struct ExImpulseJointSet(ImpulseJointSet);

/// Carried opaquely: rapier's set of multibody joints (unused here but for removal).
#[verifier::external_type_specification]
#[verifier::external_body]
pub struct ExMultibodyJointSet(MultibodyJointSet);

/// Carried opaquely: rapier's record of active islands.
#[verifier::external_type_specification]
#[verifier::external_body]
pub struct ExIslandManager(IslandManager);

/// Carried opaquely: a rapier body, built by the caller.
#[verifier::external_type_specification]
#[verifier::external_body]
pub struct ExRigidBody(RigidBody);

/// Carried opaquely: a rapier collider, built by the caller.
#[verifier::external_type_specification]
#[verifier::external_body]
pub struct ExCollider(Collider);

/// Carried opaquely: a rapier joint description, built by the caller.
#[verifier::external_type_specification]
#[verifier::external_body]
pub struct ExGenericJoint(GenericJoint);

/// Carried opaquely: rapier's stepping pipeline.
#[verifier::external_type_specification]
#[verifier::external_body]
pub struct ExPhysicsPipeline(PhysicsPipeline);

/// Carried opaquely: rapier's broad phase.
#[verifier::external_type_specification]
#[verifier::external_body]
pub struct ExBroadPhase(BroadPhase);

/// Carried opaquely: rapier's narrow phase.
#[verifier::external_type_specification]
#[verifier::external_body]
pub struct ExNarrowPhase(NarrowPhase);

/// Carried opaquely: rapier's continuous collision solver.
#[verifier::external_type_specification]
#[verifier::external_body]
pub struct ExCCDSolver(CCDSolver);

/// Carried opaquely: rapier's acceleration structure for spatial probes.
#[verifier::external_type_specification]
#[verifier::external_body]
pub struct ExQueryPipeline(QueryPipeline);

/// Carried opaquely: rapier's time step and solver tolerances.
#[verifier::external_type_specification]
#[verifier::external_body]
pub struct ExIntegrationParameters(IntegrationParameters);

/// The handles of the bodies that a body set currently holds.
pub uninterp spec fn live_bodies(s: RigidBodySet) -> Set<PhysicsHandle>;

/// The joints that a joint set currently holds, each with its two bodies.
pub uninterp spec fn joint_links(s: ImpulseJointSet) -> Map<JointHandle, (PhysicsHandle, PhysicsHandle)>;

/// The colliders of a collider set that are attached to a body, each with
/// that body.
pub uninterp spec fn collider_parents(s: ColliderSet) -> Map<ColliderKey, PhysicsHandle>;

/// Relies on RigidBodySet::new: a new set holds no body.
#[verifier::external_body]
pub(crate) fn new_body_set() -> (r: RigidBodySet)
    ensures
        live_bodies(r) == Set::<PhysicsHandle>::empty(),
{
    RigidBodySet::new()
}

/// Relies on ImpulseJointSet::new: a new set holds no joint.
#[verifier::external_body]
pub(crate) fn new_joint_set() -> (r: ImpulseJointSet)
    ensures
        joint_links(r).dom() == Set::<JointHandle>::empty(),
{
    ImpulseJointSet::new()
}

/// Relies on ColliderSet::new: a new set holds no collider.
#[verifier::external_body]
pub(crate) fn new_collider_set() -> (r: ColliderSet)
    ensures
        collider_parents(r).dom() == Set::<ColliderKey>::empty(),
{
    ColliderSet::new()
}

/// Relies on IslandManager::new, which returns an empty manager.
pub assume_specification[ IslandManager::new ]() -> IslandManager;

/// Relies on MultibodyJointSet::new, which returns an empty set.
pub assume_specification[ MultibodyJointSet::new ]() -> MultibodyJointSet;

/// Relies on PhysicsPipeline::new, which returns a fresh pipeline.
pub assume_specification[ PhysicsPipeline::new ]() -> PhysicsPipeline;

/// Relies on BroadPhase::new, which returns an empty broad phase.
pub assume_specification[ BroadPhase::new ]() -> BroadPhase;

/// Relies on NarrowPhase::new, which returns an empty narrow phase.
pub assume_specification[ NarrowPhase::new ]() -> NarrowPhase;

/// Relies on CCDSolver::new, which returns a fresh solver.
pub assume_specification[ CCDSolver::new ]() -> CCDSolver;

/// Relies on QueryPipeline::new, which returns an empty pipeline.
pub assume_specification[ QueryPipeline::new ]() -> QueryPipeline;

/// Relies on the `Default` impl of IntegrationParameters: the solver's
/// default time step and tolerances.
pub assume_specification[ <IntegrationParameters as core::default::Default>::default ]() -> IntegrationParameters;

} // verus!
