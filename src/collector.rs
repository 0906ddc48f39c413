//! The registry of live quanta, keyed by their physics handles.
use vstd::prelude::*;
use crate::handle::PhysicsHandle;
use crate::quant::{Quant, Spawn};
use crate::world::PhysicsWorld;

verus! {

/// Owns every live quantum. Each key is the physics handle of the quantum
/// stored under it, and no handle is stored twice.
pub struct QuantumCollector<A> {
    quants: Vec<Quant<A>>,
    index: Ghost<Map<PhysicsHandle, Quant<A>>>,
}

impl<A> View for QuantumCollector<A> {
    type V = Map<PhysicsHandle, Quant<A>>;

    closed spec fn view(&self) -> Map<PhysicsHandle, Quant<A>> {
        self.index@
    }
}

impl<A> QuantumCollector<A> {
    pub closed spec fn wf(&self) -> bool {
        &&& self.index@.dom().finite()
        &&& self.index@.dom().len() == self.quants@.len()
        &&& forall|i: int, j: int| 0 <= i < j < self.quants@.len()
            ==> self.quants@[i].physics_handle != self.quants@[j].physics_handle
        &&& forall|i: int| 0 <= i < self.quants@.len() ==> {
            &&& self.index@.dom().contains(#[trigger] self.quants@[i].physics_handle)
            &&& self.index@[self.quants@[i].physics_handle] == self.quants@[i]
        }
        &&& forall|h: PhysicsHandle| #[trigger] self.index@.dom().contains(h)
            ==> exists|i: int| 0 <= i < self.quants@.len() && self.quants@[i].physics_handle == h
    }

    /// Every entry is stored under its own handle.
    pub proof fn lemma_keys_match(&self)
        requires
            self.wf(),
        ensures
            forall|h: PhysicsHandle| #[trigger] self@.dom().contains(h) ==> self@[h].physics_handle == h,
    {
        assert forall|h: PhysicsHandle| #[trigger] self@.dom().contains(h) implies self@[h].physics_handle == h by {
            let i = choose|i: int| 0 <= i < self.quants@.len() && self.quants@[i].physics_handle == h;
            assert(self.index@.dom().contains(self.quants@[i].physics_handle));
        }
    }

    /// The registry holds finitely many entries.
    pub proof fn lemma_finite(&self)
        requires
            self.wf(),
        ensures
            self@.dom().finite(),
    {
    }

    pub fn new() -> (r: QuantumCollector<A>)
        ensures
            r.wf(),
            r@.dom() == Set::<PhysicsHandle>::empty(),
    {
        QuantumCollector { quants: Vec::new(), index: Ghost(Map::empty()) }
    }

    fn find(&self, id: PhysicsHandle) -> (r: Option<usize>)
        requires
            self.wf(),
        ensures
            r.is_none() == !self@.dom().contains(id),
            r.is_some() ==> r.unwrap() < self.quants@.len() && self.quants@[r.unwrap() as int].physics_handle == id,
    {
        let mut i: usize = 0;
        while i < self.quants.len()
            invariant
                self.wf(),
                i <= self.quants@.len(),
                forall|k: int| 0 <= k < i ==> self.quants@[k].physics_handle != id,
            decreases self.quants@.len() - i,
        {
            if self.quants[i].physics_handle == id {
                return Some(i);
            }
            i = i + 1;
        }
        None
    }

    /// Stores the quantum under its handle (replacing what was stored under
    /// that handle) and returns the handle.
    pub fn add_quant(&mut self, quant: Quant<A>) -> (r: PhysicsHandle)
        requires
            old(self).wf(),
        ensures
            final(self).wf(),
            r == quant.physics_handle,
            final(self)@ == old(self)@.insert(r, quant),
    {
        let h = quant.physics_handle;
        let ghost q = quant;
        let ghost before = self.quants@;
        match self.find(h) {
            Some(i) => {
                self.quants[i] = quant;
                self.index = Ghost(self.index@.insert(h, q));
                proof {
                    assert(self.quants@ == before.update(i as int, q));
                    assert forall|g: PhysicsHandle| #[trigger] self.index@.dom().contains(g)
                        implies exists|k: int| 0 <= k < self.quants@.len() && self.quants@[k].physics_handle == g by {
                        if g != h {
                            let k = choose|k: int| 0 <= k < before.len() && before[k].physics_handle == g;
                            assert(self.quants@[k].physics_handle == g);
                        } else {
                            assert(self.quants@[i as int].physics_handle == g);
                        }
                    }
                }
            },
            None => {
                self.quants.push(quant);
                self.index = Ghost(self.index@.insert(h, q));
                proof {
                    assert(self.quants@ == before.push(q));
                    assert forall|g: PhysicsHandle| #[trigger] self.index@.dom().contains(g)
                        implies exists|k: int| 0 <= k < self.quants@.len() && self.quants@[k].physics_handle == g by {
                        if g != h {
                            let k = choose|k: int| 0 <= k < before.len() && before[k].physics_handle == g;
                            assert(self.quants@[k].physics_handle == g);
                        } else {
                            assert(self.quants@[before.len() as int].physics_handle == g);
                        }
                    }
                }
            },
        }
        h
    }

    /// The quantum stored under the handle, if any.
    pub fn get(&self, id: PhysicsHandle) -> (r: Option<&Quant<A>>)
        requires
            self.wf(),
        ensures
            r.is_some() == self@.dom().contains(id),
            r.is_some() ==> *r.unwrap() == self@[id],
    {
        match self.find(id) {
            Some(i) => Some(&self.quants[i]),
            None => None,
        }
    }

    /// Deletes the entry stored under the handle, if any. The physics body
    /// is left alone.
    pub fn remove(&mut self, id: PhysicsHandle)
        requires
            old(self).wf(),
        ensures
            final(self).wf(),
            final(self)@ == old(self)@.remove(id),
    {
        let ghost before = self.quants@;
        match self.find(id) {
            Some(i) => {
                self.quants.remove(i);
                self.index = Ghost(self.index@.remove(id));
                proof {
                    let after = self.quants@;
                    assert(after == before.remove(i as int));
                    assert forall|a: int, b: int| 0 <= a < b < after.len()
                        implies after[a].physics_handle != after[b].physics_handle by {
                        let a0 = if a < i { a } else { a + 1 };
                        let b0 = if b < i { b } else { b + 1 };
                        assert(after[a] == before[a0]);
                        assert(after[b] == before[b0]);
                    }
                    assert forall|k: int| 0 <= k < after.len() implies {
                        &&& self.index@.dom().contains(#[trigger] after[k].physics_handle)
                        &&& self.index@[after[k].physics_handle] == after[k]
                    } by {
                        let k0 = if k < i { k } else { k + 1 };
                        assert(after[k] == before[k0]);
                        assert(before[k0].physics_handle != before[i as int].physics_handle);
                    }
                    assert forall|g: PhysicsHandle| #[trigger] self.index@.dom().contains(g)
                        implies exists|k: int| 0 <= k < after.len() && after[k].physics_handle == g by {
                        let k0 = choose|k: int| 0 <= k < before.len() && before[k].physics_handle == g;
                        assert(k0 != i);
                        if k0 < i {
                            assert(after[k0].physics_handle == g);
                        } else {
                            assert(after[k0 - 1].physics_handle == g);
                        }
                    }
                }
            },
            None => {
                assert(self.index@.remove(id) =~= self.index@);
            },
        }
    }

    /// The number of stored quanta.
    pub fn count(&self) -> (r: usize)
        requires
            self.wf(),
        ensures
            r == self@.dom().len(),
    {
        self.quants.len()
    }

    /// The stored quanta, in no particular order.
    pub fn get_iter(&self) -> (r: &[Quant<A>])
        requires
            self.wf(),
        ensures
            r@.len() == self@.dom().len(),
            forall|i: int| 0 <= i < r@.len() ==> self@.dom().contains(#[trigger] r@[i].physics_handle)
                && self@[r@[i].physics_handle] == r@[i],
            forall|i: int, j: int| 0 <= i < j < r@.len() ==> r@[i].physics_handle != r@[j].physics_handle,
    {
        self.quants.as_slice()
    }

    /// Replaces the cached state of the quantum stored under the handle;
    /// does nothing for a handle that is not stored.
    pub fn set_state(&mut self, id: PhysicsHandle, state: A)
        requires
            old(self).wf(),
        ensures
            final(self).wf(),
            old(self)@.dom().contains(id) ==> final(self)@ == old(self)@.insert(id, Quant { state, ..old(self)@[id] }),
            !old(self)@.dom().contains(id) ==> final(self)@ == old(self)@,
    {
        let ghost before = self.quants@;
        match self.find(id) {
            Some(i) => {
                let ghost q = Quant { state, ..before[i as int] };
                self.quants[i].state = state;
                self.index = Ghost(self.index@.insert(id, q));
                proof {
                    assert(self.quants@ == before.update(i as int, q));
                    assert forall|g: PhysicsHandle| #[trigger] self.index@.dom().contains(g)
                        implies exists|k: int| 0 <= k < self.quants@.len() && self.quants@[k].physics_handle == g by {
                        let k = choose|k: int| 0 <= k < before.len() && before[k].physics_handle == g;
                        assert(self.quants@[k].physics_handle == g);
                    }
                }
            },
            None => {},
        }
    }

    /// Spawns one quantum for each spawn given, in order, and stores each.
    pub fn add_many_quants(&mut self, spawns: Vec<Spawn<A>>, bounds_num: usize, physics: &mut PhysicsWorld)
        requires
            old(self).wf(),
            old(physics).wf(),
            old(self)@.dom().subset_of(old(physics).live()),
        ensures
            final(self).wf(),
            final(physics).wf(),
            final(self)@.dom().subset_of(final(physics).live()),
            final(self)@.dom().len() == old(self)@.dom().len() + spawns@.len(),
            final(physics).live().len() == old(physics).live().len() + spawns@.len(),
            final(physics).links() == old(physics).links(),
            old(self)@.submap_of(final(self)@),
            forall|h: PhysicsHandle| #[trigger] final(physics).live().contains(h)
                <==> (old(physics).live().contains(h) || (final(self)@.dom().contains(h) && !old(self)@.dom().contains(h))),
            forall|h: PhysicsHandle| #[trigger] final(self)@.dom().contains(h) && !old(self)@.dom().contains(h)
                ==> !old(physics).live().contains(h),
            forall|h: PhysicsHandle| #[trigger] final(self)@.dom().contains(h) ==> final(self)@[h].physics_handle == h,
    {
        let ghost entries_before = self@;
        let ghost live_before = physics.live();
        let ghost l0 = physics.links();
        let ghost n_spawns = spawns@.len();
        let mut rest = spawns;
        while rest.len() > 0
            invariant
                self.wf(),
                physics.wf(),
                self@.dom().subset_of(physics.live()),
                rest@.len() <= n_spawns,
                self@.dom().len() == entries_before.dom().len() + (n_spawns - rest@.len()),
                physics.live().len() == live_before.len() + (n_spawns - rest@.len()),
                physics.links() == l0,
                entries_before.submap_of(self@),
                forall|h: PhysicsHandle| #[trigger] physics.live().contains(h)
                    <==> (live_before.contains(h) || (self@.dom().contains(h) && !entries_before.dom().contains(h))),
                forall|h: PhysicsHandle| #[trigger] self@.dom().contains(h) && !entries_before.dom().contains(h)
                    ==> !live_before.contains(h),
            decreases rest@.len(),
        {
            let spawn = rest.pop().unwrap();
            let q = Quant::new(spawn, bounds_num, physics);
            let ghost h = q.physics_handle;
            let ghost dom_before = self@.dom();
            self.add_quant(q);
            proof {
                assert(!dom_before.contains(h));
                assert(self@.dom() =~= dom_before.insert(h));
            }
        }
        proof {
            self.lemma_keys_match();
        }
    }
}

} // verus!
