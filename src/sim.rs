//! The simulation's state and the decisions of one frame: population floor,
//! assemblies, removal, reset and pruning of dead links.
use vstd::prelude::*;
use crate::collector::QuantumCollector;
use crate::gravity::GravityClock;
use crate::handle::{ColliderKey, JointHandle, PhysicsHandle};
use crate::joint::MyJoint;
use crate::quant::{Quant, Spawn, DEFAULT_BOUNDS_NUM};
use crate::world::PhysicsWorld;
use rapier2d::dynamics::GenericJoint;

verus! {

/// One minor quantum of an assembly: its spawn, the joint that tethers it to
/// the major quantum (built along its own offset axis), and the cached
/// state of that link.
pub struct Minor<Q, J> {
    pub spawn: Spawn<Q>,
    pub joint: GenericJoint,
    pub link_state: J,
}

/// What building an assembly created: the major body, and the minor bodies
/// with their joints, paired by position.
pub struct Assembly {
    pub major: PhysicsHandle,
    pub minors: Vec<PhysicsHandle>,
    pub joints: Vec<JointHandle>,
}

/// The whole sandbox state: the physics world, the registry of quanta (with
/// cached state `Q`), the joint links (with cached state `J`), the gravity
/// cadence, and the population floor.
pub struct Simulation<Q, J> {
    pub physics: PhysicsWorld,
    pub quants: QuantumCollector<Q>,
    pub links: Vec<MyJoint<J>>,
    pub gravity: GravityClock,
    pub quant_min_num: usize,
    pub running: bool,
}

/// The population after one floor check: one more when under the floor.
pub open spec fn topped_up(count: nat, min: nat) -> nat {
    if count < min {
        count + 1
    } else {
        count
    }
}

/// The population after `k` floor checks with no other change.
pub open spec fn after_checks(count: nat, min: nat, k: nat) -> nat
    decreases k,
{
    if k == 0 {
        count
    } else {
        topped_up(after_checks(count, min, (k - 1) as nat), min)
    }
}

/// A population under its floor (after a removal, say) regains exactly one
/// quantum per check, never more, until it reaches the floor; one at or over
/// the floor is left as it is.
pub proof fn lemma_floor_one_per_check(count: nat, min: nat, k: nat)
    ensures
        after_checks(count, min, k) == (if count >= min {
            count
        } else if count + k <= min {
            count + k
        } else {
            min
        }),
        count < min && k >= 1 ==> after_checks(count, min, 1) == count + 1,
    decreases k,
{
    if k > 0 {
        lemma_floor_one_per_check(count, min, (k - 1) as nat);
    }
}

/// Whether a link's joint is among the given live joints.
pub open spec fn link_alive<J>(joints: Map<JointHandle, (PhysicsHandle, PhysicsHandle)>) -> spec_fn(MyJoint<J>) -> bool {
    |l: MyJoint<J>| joints.dom().contains(l.physics_handle)
}

impl<Q, J> Simulation<Q, J> {
    /// The world is well formed, and every registered quantum has a live body.
    pub open spec fn wf(&self) -> bool {
        &&& self.physics.wf()
        &&& self.quants.wf()
        &&& self.quants@.dom().subset_of(self.physics.live())
    }

    pub fn new(quant_min_num: usize) -> (r: Simulation<Q, J>)
        ensures
            r.wf(),
            r.quants@.dom().len() == 0,
            r.physics.live().len() == 0,
            r.physics.links().dom().len() == 0,
            r.links@.len() == 0,
            r.gravity.elapsed_us == 0,
            r.quant_min_num == quant_min_num,
            r.running,
    {
        Simulation {
            physics: PhysicsWorld::new(),
            quants: QuantumCollector::new(),
            links: Vec::new(),
            gravity: GravityClock::new(),
            quant_min_num,
            running: true,
        }
    }

    pub fn is_running(&self) -> (r: bool)
        ensures
            r == self.running,
    {
        self.running
    }

    /// The number of live quanta.
    pub fn count(&self) -> (r: usize)
        requires
            self.wf(),
        ensures
            r == self.quants@.dom().len(),
    {
        self.quants.count()
    }

    /// Whether the population is under its floor.
    pub fn needs_quant(&self) -> (r: bool)
        requires
            self.wf(),
        ensures
            r == (self.quants@.dom().len() < self.quant_min_num),
    {
        self.quants.count() < self.quant_min_num
    }

    /// Enforces the population floor by one quantum at most: under the floor,
    /// spawns exactly one (from `spawn`), whose body is the one new body of
    /// the world; otherwise changes nothing.
    pub fn check_quants_num(&mut self, spawn: Spawn<Q>) -> (added: bool)
        requires
            old(self).wf(),
        ensures
            final(self).wf(),
            added == (old(self).quants@.dom().len() < old(self).quant_min_num),
            final(self).quants@.dom().len() == topped_up(old(self).quants@.dom().len(), old(self).quant_min_num as nat),
            old(self).quants@.submap_of(final(self).quants@),
            final(self).physics.links() == old(self).physics.links(),
            final(self).physics.live().len() == old(self).physics.live().len() + (if added { 1int } else { 0int }),
            forall|h: PhysicsHandle| #[trigger] final(self).physics.live().contains(h)
                <==> (old(self).physics.live().contains(h)
                    || (final(self).quants@.dom().contains(h) && !old(self).quants@.dom().contains(h))),
            forall|h: PhysicsHandle| #[trigger] final(self).quants@.dom().contains(h) && !old(self).quants@.dom().contains(h)
                ==> !old(self).physics.live().contains(h),
            !added ==> *final(self) == *old(self),
            final(self).quant_min_num == old(self).quant_min_num,
    {
        if self.quants.count() < self.quant_min_num {
            let mut one: Vec<Spawn<Q>> = Vec::new();
            one.push(spawn);
            self.quants.add_many_quants(one, DEFAULT_BOUNDS_NUM, &mut self.physics);
            true
        } else {
            false
        }
    }

    /// Removes a quantum everywhere at once: its registry entry, its body and
    /// colliders, and the joints attached to it.
    pub fn destroy_quant(&mut self, id: PhysicsHandle)
        requires
            old(self).wf(),
        ensures
            final(self).wf(),
            final(self).quants@ == old(self).quants@.remove(id),
            final(self).physics.live() == old(self).physics.live().remove(id),
            final(self).physics.links().dom() =~= old(self).physics.links().dom().filter(|j: JointHandle|
                old(self).physics.links()[j].0 != id && old(self).physics.links()[j].1 != id),
            final(self).physics.attachments() == old(self).physics.attachments().restrict(
                old(self).physics.attachments().dom().filter(|c: ColliderKey| old(self).physics.attachments()[c] != id)),
            final(self).quant_min_num == old(self).quant_min_num,
    {
        self.quants.remove(id);
        self.physics.remove_physics_object(id);
    }

    /// Clears the world: no quantum, body, collider, joint or link remains.
    pub fn reset(&mut self)
        requires
            old(self).wf(),
        ensures
            final(self).wf(),
            final(self).quants@.dom().len() == 0,
            final(self).physics.live().len() == 0,
            final(self).physics.links().dom().len() == 0,
            final(self).physics.attachments().dom().len() == 0,
            final(self).links@.len() == 0,
            final(self).quant_min_num == old(self).quant_min_num,
            final(self).gravity == old(self).gravity,
            final(self).running == old(self).running,
    {
        self.physics.reset();
        self.quants = QuantumCollector::new();
        self.links = Vec::new();
    }

    /// Drops the links whose joint no longer exists, keeping the others in
    /// order.
    pub fn prune_links(&mut self)
        requires
            old(self).wf(),
        ensures
            final(self).wf(),
            final(self).links@ == old(self).links@.filter(link_alive(old(self).physics.links())),
            final(self).physics == old(self).physics,
            final(self).quants == old(self).quants,
            final(self).quant_min_num == old(self).quant_min_num,
    {
        let ghost joints = self.physics.links();
        let ghost pred = link_alive::<J>(joints);
        let mut rest: Vec<MyJoint<J>> = Vec::new();
        std::mem::swap(&mut rest, &mut self.links);
        let ghost orig = rest@;
        let n = rest.len();
        let mut i: usize = 0;
        while rest.len() > 0
            invariant
                self.wf(),
                self.physics == old(self).physics,
                self.quants == old(self).quants,
                self.quant_min_num == old(self).quant_min_num,
                i <= orig.len(),
                orig.len() == n,
                joints == self.physics.links(),
                pred == link_alive::<J>(joints),
                rest@ == orig.subrange(i as int, orig.len() as int),
                self.links@ == orig.take(i as int).filter(pred),
            decreases rest@.len(),
        {
            let l = rest.remove(0);
            let ghost prefix = orig.take(i + 1);
            proof {
                reveal(Seq::filter);
                assert(prefix.len() == i + 1);
                assert(l == orig[i as int]);
                assert(prefix.drop_last() =~= orig.take(i as int));
                assert(prefix.last() == l);
                assert(prefix.filter(pred) == if pred(l) {
                    orig.take(i as int).filter(pred).push(l)
                } else {
                    orig.take(i as int).filter(pred)
                });
            }
            let ghost kept = self.links@;
            let valid = l.is_valid(&self.physics);
            proof {
                assert(pred(l) == valid);
            }
            if valid {
                self.links.push(l);
                assert(self.links@ == kept.push(l));
            }
            i = i + 1;
            proof {
                assert(rest@ =~= orig.subrange(i as int, orig.len() as int));
            }
        }
        proof {
            reveal(Seq::filter);
            assert(orig.take(i as int) =~= orig);
        }
    }
    /// Builds an assembly: one major quantum, then each minor quantum tethered
    /// to it by its own joint. Returns what was created, minors and joints
    /// paired by position.
    pub fn add_custom(&mut self, major: Spawn<Q>, minors: Vec<Minor<Q, J>>) -> (r: Assembly)
        requires
            old(self).wf(),
        ensures
            final(self).wf(),
            r.minors@.len() == minors@.len(),
            r.joints@.len() == minors@.len(),
            !old(self).physics.live().contains(r.major),
            forall|i: int| 0 <= i < r.minors@.len() ==> !old(self).physics.live().contains(#[trigger] r.minors@[i])
                && r.minors@[i] != r.major,
            r.minors@.no_duplicates(),
            forall|h: PhysicsHandle| #[trigger] final(self).physics.live().contains(h)
                <==> (old(self).physics.live().contains(h) || h == r.major || r.minors@.contains(h)),
            final(self).quants@.dom().len() == old(self).quants@.dom().len() + 1 + minors@.len(),
            final(self).physics.live().len() == old(self).physics.live().len() + 1 + minors@.len(),
            final(self).physics.links().dom().len() == old(self).physics.links().dom().len() + minors@.len(),
            forall|i: int| 0 <= i < r.joints@.len() ==> !old(self).physics.links().dom().contains(#[trigger] r.joints@[i])
                && final(self).physics.links()[r.joints@[i]] == (r.major, r.minors@[i]),
            forall|j: JointHandle| #[trigger] final(self).physics.links().dom().contains(j)
                <==> (old(self).physics.links().dom().contains(j) || r.joints@.contains(j)),
            forall|j: JointHandle| #[trigger] old(self).physics.links().dom().contains(j)
                ==> final(self).physics.links()[j] == old(self).physics.links()[j],
            final(self).links@.len() == old(self).links@.len() + minors@.len(),
            forall|i: int| 0 <= i < old(self).links@.len() ==> #[trigger] final(self).links@[i] == old(self).links@[i],
            forall|i: int| 0 <= i < r.joints@.len()
                ==> #[trigger] final(self).links@[old(self).links@.len() + i].physics_handle == r.joints@[i],
            old(self).quants@.submap_of(final(self).quants@),
            final(self).quant_min_num == old(self).quant_min_num,
    {
        let ghost live0 = self.physics.live();
        let ghost links0 = self.physics.links();
        let ghost quants0 = self.quants@;
        let ghost mylinks0 = self.links@;
        let ghost k = minors@.len();
        let q = Quant::new(major, DEFAULT_BOUNDS_NUM, &mut self.physics);
        proof {
            self.quants.lemma_finite();
        }
        let major_handle = self.quants.add_quant(q);
        let mut minor_handles: Vec<PhysicsHandle> = Vec::new();
        let mut joint_handles: Vec<JointHandle> = Vec::new();
        let mut rest = minors;
        while rest.len() > 0
            invariant
                self.wf(),
                rest@.len() + minor_handles@.len() == k,
                joint_handles@.len() == minor_handles@.len(),
                !live0.contains(major_handle),
                self.physics.live().contains(major_handle),
                forall|i: int| 0 <= i < minor_handles@.len() ==> !live0.contains(#[trigger] minor_handles@[i])
                    && minor_handles@[i] != major_handle,
                minor_handles@.no_duplicates(),
                forall|h: PhysicsHandle| #[trigger] self.physics.live().contains(h)
                    <==> (live0.contains(h) || h == major_handle || minor_handles@.contains(h)),
                self.quants@.dom().len() == quants0.dom().len() + 1 + minor_handles@.len(),
                self.physics.live().len() == live0.len() + 1 + minor_handles@.len(),
                self.physics.links().dom().len() == links0.dom().len() + minor_handles@.len(),
                forall|i: int| 0 <= i < joint_handles@.len() ==> !links0.dom().contains(#[trigger] joint_handles@[i])
                    && self.physics.links()[joint_handles@[i]] == (major_handle, minor_handles@[i]),
                forall|j: JointHandle| #[trigger] self.physics.links().dom().contains(j)
                    <==> (links0.dom().contains(j) || joint_handles@.contains(j)),
                forall|j: JointHandle| #[trigger] links0.dom().contains(j) ==> self.physics.links()[j] == links0[j],
                self.links@.len() == mylinks0.len() + joint_handles@.len(),
                forall|i: int| 0 <= i < mylinks0.len() ==> #[trigger] self.links@[i] == mylinks0[i],
                forall|i: int| 0 <= i < joint_handles@.len()
                    ==> #[trigger] self.links@[mylinks0.len() + i].physics_handle == joint_handles@[i],
                quants0.submap_of(self.quants@),
                self.quant_min_num == old(self).quant_min_num,
            decreases rest@.len(),
        {
            let Minor { spawn, joint, link_state } = rest.remove(0);
            let ghost live_before = self.physics.live();
            let ghost links_before = self.physics.links();
            let ghost quants_before = self.quants@;
            let ghost minors_before = minor_handles@;
            let ghost joints_before = joint_handles@;
            let ghost mylinks_before = self.links@;
            let q = Quant::new(spawn, DEFAULT_BOUNDS_NUM, &mut self.physics);
            let h = q.physics_handle;
            proof {
                self.quants.lemma_finite();
                assert(!quants_before.dom().contains(h));
            }
            self.quants.add_quant(q);
            let link = MyJoint::new(major_handle, h, joint, link_state, &mut self.physics);
            let jh = link.physics_handle;
            self.links.push(link);
            minor_handles.push(h);
            joint_handles.push(jh);
            proof {
                assert(self.quants@.dom() =~= quants_before.dom().insert(h));
                assert(minor_handles@ == minors_before.push(h));
                assert(joint_handles@ == joints_before.push(jh));
                assert(self.links@.len() == mylinks_before.len() + 1);
                assert(!minors_before.contains(h));
                assert(!joints_before.contains(jh));
                assert forall|i: int| 0 <= i < minor_handles@.len() implies !live0.contains(#[trigger] minor_handles@[i])
                    && minor_handles@[i] != major_handle by {
                    if i < minors_before.len() {
                        assert(minor_handles@[i] == minors_before[i]);
                    }
                }
                assert forall|h2: PhysicsHandle| #[trigger] self.physics.live().contains(h2)
                    <==> (live0.contains(h2) || h2 == major_handle || minor_handles@.contains(h2)) by {
                    if minors_before.contains(h2) {
                        let m = choose|m: int| 0 <= m < minors_before.len() && minors_before[m] == h2;
                        assert(minor_handles@[m] == h2);
                    }
                    if minor_handles@.contains(h2) && h2 != h {
                        let m = choose|m: int| 0 <= m < minor_handles@.len() && minor_handles@[m] == h2;
                        assert(minors_before[m] == h2);
                    }
                    assert(minor_handles@[minors_before.len() as int] == h);
                }
                assert forall|i: int| 0 <= i < joint_handles@.len() implies !links0.dom().contains(#[trigger] joint_handles@[i])
                    && self.physics.links()[joint_handles@[i]] == (major_handle, minor_handles@[i]) by {
                    if i < joints_before.len() {
                        assert(joint_handles@[i] == joints_before[i]);
                        assert(minor_handles@[i] == minors_before[i]);
                        assert(links_before.dom().contains(joints_before[i]));
                    }
                }
                assert forall|j: JointHandle| #[trigger] self.physics.links().dom().contains(j)
                    <==> (links0.dom().contains(j) || joint_handles@.contains(j)) by {
                    if joints_before.contains(j) {
                        let m = choose|m: int| 0 <= m < joints_before.len() && joints_before[m] == j;
                        assert(joint_handles@[m] == j);
                    }
                    if joint_handles@.contains(j) && j != jh {
                        let m = choose|m: int| 0 <= m < joint_handles@.len() && joint_handles@[m] == j;
                        assert(joints_before[m] == j);
                    }
                    assert(joint_handles@[joints_before.len() as int] == jh);
                }
                assert forall|j: JointHandle| #[trigger] links0.dom().contains(j) implies self.physics.links()[j] == links0[j] by {
                    assert(links_before.dom().contains(j));
                }
                assert forall|i: int| 0 <= i < mylinks0.len() implies #[trigger] self.links@[i] == mylinks0[i] by {
                    assert(self.links@[i] == mylinks_before[i]);
                }
                assert forall|i: int| 0 <= i < joint_handles@.len()
                    implies #[trigger] self.links@[mylinks0.len() + i].physics_handle == joint_handles@[i] by {
                    if i < joints_before.len() {
                        assert(self.links@[mylinks0.len() + i] == mylinks_before[mylinks0.len() + i]);
                    }
                }
            }
        }
        Assembly { major: major_handle, minors: minor_handles, joints: joint_handles }
    }
}

} // verus!
