//! The entity store: a registry of slots indexed by entity id, a query
//! engine over capability sets, and the mutation queue that defers
//! structural changes produced while a system iterates.
//!
//! An id freed by removal is never reused, so an id obtained from a query
//! can never silently come to denote a different entity, and fresh ids can
//! never collide with ids removed earlier in the same batch.
use vstd::prelude::*;

use crate::components::EntityData;
use crate::components::Kind;
use crate::components::entity_wf;
use crate::components::has_kind;
use crate::components::has_kind_spec;

verus! {

broadcast use vstd::seq_lib::lemma_seq_contains_after_push;

/// Read-only or read-write access to one component kind within a query.
#[derive(Clone, Copy, PartialEq, Eq, Structural, Debug)]
pub enum Access {
    Read,
    Write,
}

/// One requested component kind with its access mode.
#[derive(Clone, Copy, PartialEq, Eq, Structural, Debug)]
pub struct Cap {
    pub kind: Kind,
    pub access: Access,
}

/// The capability set's kinds are pairwise distinct, so no query can hold
/// two simultaneous write capabilities on the same kind.
pub open spec fn caps_wf(caps: Seq<Cap>) -> bool {
    forall|i: int, j: int| 0 <= i < j < caps.len() ==> caps[i].kind != caps[j].kind
}

/// An ordered list of requested (kind, access) pairs with distinct kinds.
pub struct CapSet {
    pub caps: Vec<Cap>,
}

impl CapSet {
    /// Builds a capability set; refused exactly when two entries request
    /// the same component kind.
    pub fn new(caps: Vec<Cap>) -> (r: Option<CapSet>)
        ensures
            r is Some <==> caps_wf(caps@),
            r is Some ==> r->Some_0.caps@ == caps@,
    {
        let n = caps.len();
        let mut i: usize = 0;
        while i < n
            invariant
                i <= n,
                n == caps@.len(),
                forall|a: int, b: int| 0 <= a < b < caps@.len() && a < i ==> caps@[a].kind
                    != caps@[b].kind,
            decreases n - i,
        {
            let mut j: usize = i + 1;
            while j < n
                invariant
                    i < j <= n,
                    n == caps@.len(),
                    forall|b: int| i < b < j ==> caps@[i as int].kind != caps@[b].kind,
                decreases n - j,
            {
                if caps[i].kind == caps[j].kind {
                    return None;
                }
                j += 1;
            }
            i += 1;
        }
        Some(CapSet { caps })
    }
}

/// The entity matches the capability set: it exists and carries every
/// requested kind.
pub open spec fn slot_matches(s: Option<EntityData>, caps: Seq<Cap>) -> bool {
    match s {
        Option::None => false,
        Option::Some(d) => forall|i: int| 0 <= i < caps.len() ==> has_kind_spec(d, caps[i].kind),
    }
}

/// Component storage and entity registry in one: slot `id` holds the
/// components of entity `id`, or `None` once the entity is destroyed.
pub struct World {
    pub slots: Vec<Option<EntityData>>,
}

/// Every live entity of the world is numerically well formed.
pub open spec fn world_wf(w: World) -> bool {
    forall|i: int| 0 <= i < w.slots@.len() && w.slots@[i] is Some ==> entity_wf(
        #[trigger] w.slots@[i]->Some_0,
    )
}

impl World {
    pub fn new() -> (r: World)
        ensures
            r.slots@ =~= Seq::<Option<EntityData>>::empty(),
            world_wf(r),
    {
        World { slots: Vec::new() }
    }

    pub fn entity_count(&self) -> (r: usize)
        ensures
            r == self.slots@.len(),
    {
        self.slots.len()
    }

    /// Point lookup; `None` both for a destroyed entity and for an id never
    /// allocated.
    pub fn get(&self, id: usize) -> (r: Option<EntityData>)
        ensures
            r == if id < self.slots@.len() {
                self.slots@[id as int]
            } else {
                Option::<EntityData>::None
            },
    {
        if id < self.slots.len() {
            self.slots[id]
        } else {
            None
        }
    }

    /// Allocates a fresh id, never one previously freed, and stores the
    /// full bundle under it.
    pub fn insert_entity(&mut self, data: EntityData) -> (id: usize)
        ensures
            id == old(self).slots@.len(),
            final(self).slots@ == old(self).slots@.push(Some(data)),
    {
        let id = self.slots.len();
        self.slots.push(Some(data));
        id
    }

    /// Destroys an entity: clears all its components at once. Removing an
    /// id already removed, or never allocated, is a silent no-op.
    pub fn remove(&mut self, id: usize)
        ensures
            final(self).slots@.len() == old(self).slots@.len(),
            id < old(self).slots@.len() ==> final(self).slots@ == old(self).slots@.update(
                id as int,
                None,
            ),
            id >= old(self).slots@.len() ==> final(self).slots@ == old(self).slots@,
    {
        if id < self.slots.len() {
            self.slots[id] = None;
        }
    }

    /// The query engine: yields the ids of exactly the entities that carry
    /// every kind the capability set requests, in increasing id order, so
    /// the per-entity ordering is stable for a fixed world state.
    pub fn query(&self, caps: &CapSet) -> (r: Vec<usize>)
        ensures
            forall|k: int| 0 <= k < r@.len() ==> r@[k] < self.slots@.len() && slot_matches(
                #[trigger] self.slots@[r@[k] as int],
                caps.caps@,
            ),
            forall|k1: int, k2: int| 0 <= k1 < k2 < r@.len() ==> r@[k1] < r@[k2],
            forall|id: int| 0 <= id < self.slots@.len() && slot_matches(
                #[trigger] self.slots@[id],
                caps.caps@,
            ) ==> r@.contains(id as usize),
    {
        let mut r: Vec<usize> = Vec::new();
        let n = self.slots.len();
        let mut id: usize = 0;
        while id < n
            invariant
                id <= n,
                n == self.slots@.len(),
                forall|k: int| 0 <= k < r@.len() ==> #[trigger] r@[k] < id,
                forall|k: int| 0 <= k < r@.len() ==> slot_matches(
                    #[trigger] self.slots@[r@[k] as int],
                    caps.caps@,
                ),
                forall|k1: int, k2: int| 0 <= k1 < k2 < r@.len() ==> r@[k1] < r@[k2],
                forall|i: int| 0 <= i < id && slot_matches(#[trigger] self.slots@[i], caps.caps@)
                    ==> r@.contains(i as usize),
            decreases n - id,
        {
            if self.slot_matches_exec(id, caps) {
                r.push(id);
            }
            id += 1;
        }
        r
    }

    /// Membership test behind the query engine.
    fn slot_matches_exec(&self, id: usize, caps: &CapSet) -> (r: bool)
        requires
            id < self.slots@.len(),
        ensures
            r == slot_matches(self.slots@[id as int], caps.caps@),
    {
        match &self.slots[id] {
            None => false,
            Some(d) => {
                let m = caps.caps.len();
                let mut j: usize = 0;
                while j < m
                    invariant
                        j <= m,
                        m == caps.caps@.len(),
                        self.slots@[id as int] is Some,
                        *d == self.slots@[id as int]->Some_0,
                        forall|i: int| 0 <= i < j ==> has_kind_spec(*d, caps.caps@[i].kind),
                    decreases m - j,
                {
                    if !has_kind(d, caps.caps[j].kind) {
                        proof {
                            assert(!has_kind_spec(*d, caps.caps@[j as int].kind));
                        }
                        return false;
                    }
                    j += 1;
                }
                true
            },
        }
    }
}

/// Structural changes discovered during a query pass: new-entity bundles
/// and ids to destroy, applied as one batch after the pass.
pub struct MutationQueue {
    pub spawns: Vec<EntityData>,
    pub removals: Vec<usize>,
}

impl MutationQueue {
    pub fn new() -> (r: MutationQueue)
        ensures
            r.spawns@ =~= Seq::<EntityData>::empty(),
            r.removals@ =~= Seq::<usize>::empty(),
    {
        MutationQueue { spawns: Vec::new(), removals: Vec::new() }
    }

    /// Buffers a new-entity bundle; it becomes visible only when the batch
    /// is applied.
    pub fn spawn(&mut self, data: EntityData)
        ensures
            final(self).spawns@ == old(self).spawns@.push(data),
            final(self).removals@ == old(self).removals@,
    {
        self.spawns.push(data);
    }

    /// Buffers the destruction of an entity.
    pub fn remove_entity(&mut self, id: usize)
        ensures
            final(self).removals@ == old(self).removals@.push(id),
            final(self).spawns@ == old(self).spawns@,
    {
        self.removals.push(id);
    }

    /// Applies the batch: removals first, then creations at fresh ids, so a
    /// creation can never land on an id removed in the same batch. An empty
    /// queue is a no-op.
    pub fn apply(&self, world: &mut World)
        ensures
            final(world).slots@.len() == old(world).slots@.len() + self.spawns@.len(),
            forall|id: int| 0 <= id < old(world).slots@.len() ==> final(world).slots@[id] == (
            if self.removals@.contains(id as usize) {
                Option::<EntityData>::None
            } else {
                old(world).slots@[id]
            }),
            forall|k: int| 0 <= k < self.spawns@.len() ==> final(world).slots@[old(
                world,
            ).slots@.len() + k] == Some(self.spawns@[k]),
    {
        let n_slots = world.entity_count();
        let nr = self.removals.len();
        let mut i: usize = 0;
        while i < nr
            invariant
                i <= nr,
                nr == self.removals@.len(),
                old(world).slots@.len() == n_slots,
                world.slots@.len() == old(world).slots@.len(),
                forall|id: int| 0 <= id < old(world).slots@.len() ==> world.slots@[id] == (
                if self.removals@.take(i as int).contains(id as usize) {
                    Option::<EntityData>::None
                } else {
                    old(world).slots@[id]
                }),
            decreases nr - i,
        {
            let id = self.removals[i];
            proof {
                assert(self.removals@.take(i + 1) =~= self.removals@.take(i as int).push(
                    self.removals@[i as int],
                ));
            }
            world.remove(id);
            i += 1;
        }
        proof {
            assert(self.removals@.take(nr as int) =~= self.removals@);
        }
        let ns = self.spawns.len();
        let mut k: usize = 0;
        while k < ns
            invariant
                k <= ns,
                ns == self.spawns@.len(),
                world.slots@.len() == old(world).slots@.len() + k,
                forall|id: int| 0 <= id < old(world).slots@.len() ==> world.slots@[id] == (
                if self.removals@.contains(id as usize) {
                    Option::<EntityData>::None
                } else {
                    old(world).slots@[id]
                }),
                forall|j: int| 0 <= j < k ==> world.slots@[old(world).slots@.len() + j] == Some(
                    self.spawns@[j],
                ),
            decreases ns - k,
        {
            world.insert_entity(self.spawns[k]);
            k += 1;
        }
    }
}

} // verus!
