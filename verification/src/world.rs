//! The component store and entity registry: generation-stamped entity
//! handles with recycling, dense per-slot component storage, sparse
//! stores for rarely-attached kinds, change-event logs for the tracked
//! kinds (Transform, Model), the duplicate-suppressing deferred-removal
//! queue, and the end-of-tick flush that releases render handles before
//! deleting entities.
//!
//! Stale handles are rejected everywhere: every accessor of a dead or
//! outdated handle reports "absent" instead of failing.

use vstd::prelude::*;
use crate::components::{
    Asteroid, AsteroidField, Collider, Cooler, GadgetEntity, Health, Laser, Line, Miner,
    MiningMissile, Model, RigidBody, Ship, Transform,
};
use crate::events::{EventLog, StoreEvent};
use crate::render::MeshManager;
use crate::sparse::SparseStore;

verus! {

/// An opaque entity handle: a slot index plus the generation the slot
/// had when the handle was issued. A handle whose generation no longer
/// matches its slot is stale and behaves as dead.
#[derive(Clone, Copy, Debug, PartialEq, Eq, Structural)]
pub struct Entity {
    pub idx: usize,
    pub gen: u32,
}

/// One storage slot: the liveness bookkeeping plus the dense (always
/// iterated) component kinds of the entity occupying it.
#[derive(Clone, Copy, Debug, PartialEq, Eq, Structural)]
pub struct Slot {
    pub gen: u32,
    pub alive: bool,
    pub transform: Option<Transform>,
    pub model: Option<Model>,
    pub body: Option<RigidBody>,
    pub collider: Option<Collider>,
    pub health: Option<Health>,
    pub ship: Option<Ship>,
    pub gadget: Option<GadgetEntity>,
    pub line: Option<Line>,
}

/// A slot holding no components at all.
pub open spec fn slot_empty(s: Slot) -> bool {
    &&& s.transform is None
    &&& s.model is None
    &&& s.body is None
    &&& s.collider is None
    &&& s.health is None
    &&& s.ship is None
    &&& s.gadget is None
    &&& s.line is None
}

/// The stored components are within the bounds the collision arithmetic
/// needs.
pub open spec fn slot_wf(s: Slot) -> bool {
    &&& (s.transform matches Some(t) ==> t.wf())
    &&& (s.body matches Some(b) ==> b.wf())
    &&& (s.collider matches Some(c) ==> c.wf())
}

/// The generation a slot carries after one more delete.
pub open spec fn next_gen(g: u32) -> u32 {
    if g == u32::MAX {
        0
    } else {
        (g + 1) as u32
    }
}

/// The slot left behind when the entity occupying it is deleted.
pub open spec fn slot_cleared(s: Slot) -> Slot {
    Slot {
        gen: next_gen(s.gen),
        alive: false,
        transform: None,
        model: None,
        body: None,
        collider: None,
        health: None,
        ship: None,
        gadget: None,
        line: None,
    }
}

/// The deferred-removal queue: an ordered, duplicate-suppressing list of
/// entities pending destruction this tick.
pub struct EcsUtils {
    pub to_be_removed: Vec<Entity>,
}

/// The queue a single mark leaves behind: unchanged if the entity is
/// already pending, else extended by it.
pub open spec fn marked(q: Seq<Entity>, e: Entity) -> Seq<Entity> {
    if q.contains(e) {
        q
    } else {
        q.push(e)
    }
}

impl EcsUtils {
    /// No entity is pending twice.
    pub open spec fn wf(self) -> bool {
        forall|i: int, j: int|
            0 <= i < j < self.to_be_removed@.len() ==> self.to_be_removed@[i]
                != self.to_be_removed@[j]
    }

    pub fn new() -> (r: EcsUtils)
        ensures
            r.wf(),
            r.to_be_removed@.len() == 0,
    {
        EcsUtils { to_be_removed: Vec::new() }
    }

    /// Marks an entity to be removed at the end of the update. Duplicate
    /// marks within one tick are coalesced. This is the only sanctioned
    /// way to destroy an entity: the flush releases its render handle
    /// before the deletion.
    pub fn mark_for_removal(&mut self, entity: Entity)
        requires
            old(self).wf(),
        ensures
            final(self).wf(),
            final(self).to_be_removed@ == marked(old(self).to_be_removed@, entity),
    {
        let n = self.to_be_removed.len();
        let mut i: usize = 0;
        while i < n
            invariant
                self == old(self),
                self.wf(),
                i <= n == self.to_be_removed@.len(),
                forall|m: int| 0 <= m < i ==> self.to_be_removed@[m] != entity,
            decreases n - i,
        {
            if self.to_be_removed[i] == entity {
                assert(self.to_be_removed@.contains(entity));
                return ;
            }
            i += 1;
        }
        assert(!self.to_be_removed@.contains(entity));
        let ghost q = self.to_be_removed@;
        self.to_be_removed.push(entity);
        proof {
            assert forall|i2: int, j2: int|
                0 <= i2 < j2 < self.to_be_removed@.len() implies self.to_be_removed@[i2]
                != self.to_be_removed@[j2] by {
                if j2 == self.to_be_removed@.len() - 1 {
                    assert(q.contains(q[i2]));
                }
            }
        }
    }
}

/// The aggregate of all component storages plus the entity registry, the
/// change logs, the removal queue, and the render-call log.
pub struct World {
    pub slots: Vec<Slot>,
    pub free: Vec<usize>,
    pub miners: SparseStore<Miner>,
    pub lasers: SparseStore<Laser>,
    pub coolers: SparseStore<Cooler>,
    pub missiles: SparseStore<MiningMissile>,
    pub asteroids: SparseStore<Asteroid>,
    pub fields: SparseStore<AsteroidField>,
    pub transform_events: EventLog,
    pub model_events: EventLog,
    pub utils: EcsUtils,
    pub renderer: MeshManager,
}

/// All sparse stores equal between two worlds.
pub open spec fn same_sparse(a: World, b: World) -> bool {
    &&& a.miners == b.miners
    &&& a.lasers == b.lasers
    &&& a.coolers == b.coolers
    &&& a.missiles == b.missiles
    &&& a.asteroids == b.asteroids
    &&& a.fields == b.fields
}

/// Both change logs equal between two worlds.
pub open spec fn same_events(a: World, b: World) -> bool {
    &&& a.transform_events == b.transform_events
    &&& a.model_events == b.model_events
}

/// Slots equal except possibly at index `i` (length unchanged).
pub open spec fn same_slots_except(a: World, b: World, i: int) -> bool {
    &&& b.slots@.len() == a.slots@.len()
    &&& forall|j: int| 0 <= j < a.slots@.len() && j != i ==> a.slots@[j] == b.slots@[j]
}

/// Everything but the slots and the change logs equal between two
/// worlds: free list, sparse stores, removal queue and render log.
pub open spec fn same_aux(a: World, b: World) -> bool {
    &&& a.free == b.free
    &&& same_sparse(a, b)
    &&& a.utils == b.utils
    &&& a.renderer == b.renderer
}

/// The render-handle release the flush issues for one marked entity: a
/// single `Remove` call if the entity is live and its model holds a
/// handle, else nothing.
pub open spec fn flush_release(s: Seq<Slot>, e: Entity) -> Seq<crate::render::RenderCall> {
    if e.idx < s.len() && s[e.idx as int].alive && s[e.idx as int].gen == e.gen {
        match s[e.idx as int].model {
            Some(m) => match m.model_id {
                Some(h) => seq![
                    crate::render::RenderCall::Remove { mesh_id: m.mesh_id, handle: h },
                ],
                None => Seq::empty(),
            },
            None => Seq::empty(),
        }
    } else {
        Seq::empty()
    }
}

/// All releases the flush issues for a removal queue, in queue order,
/// judged against the slots as they stood when the flush began.
pub open spec fn flush_calls(s: Seq<Slot>, q: Seq<Entity>) -> Seq<crate::render::RenderCall>
    decreases q.len(),
{
    if q.len() == 0 {
        Seq::empty()
    } else {
        flush_calls(s, q.drop_last()) + flush_release(s, q.last())
    }
}

/// A marked entity that is live with a handle has its release among the
/// flush's calls.
pub proof fn lemma_flush_calls_contains(s: Seq<Slot>, q: Seq<Entity>, j: int)
    requires
        0 <= j < q.len(),
        q[j].idx < s.len(),
        s[q[j].idx as int].alive,
        s[q[j].idx as int].gen == q[j].gen,
        s[q[j].idx as int].model is Some,
        s[q[j].idx as int].model->Some_0.model_id is Some,
    ensures
        flush_calls(s, q).contains(
            crate::render::RenderCall::Remove {
                mesh_id: s[q[j].idx as int].model->Some_0.mesh_id,
                handle: s[q[j].idx as int].model->Some_0.model_id->Some_0,
            },
        ),
    decreases q.len(),
{
    let call = crate::render::RenderCall::Remove {
        mesh_id: s[q[j].idx as int].model->Some_0.mesh_id,
        handle: s[q[j].idx as int].model->Some_0.model_id->Some_0,
    };
    if j == q.len() - 1 {
        assert(flush_release(s, q[j]) == seq![call]);
        assert(flush_calls(s, q)[flush_calls(s, q.drop_last()).len() as int] == call);
    } else {
        assert(q.drop_last()[j] == q[j]);
        lemma_flush_calls_contains(s, q.drop_last(), j);
        let p = choose|p: int|
            0 <= p < flush_calls(s, q.drop_last()).len() && flush_calls(s, q.drop_last())[p]
                == call;
        assert(flush_calls(s, q)[p] == call);
    }
}

/// Slot `i` belongs to an entity the queue of `w` marks for removal.
pub open spec fn marked_idx(w: World, i: int) -> bool {
    exists|j: int|
        0 <= j < w.utils.to_be_removed@.len() && (#[trigger] w.utils.to_be_removed@[j]).idx == i
            && w.spec_alive(w.utils.to_be_removed@[j])
}

impl World {
    /// The handle refers to the entity currently occupying its slot.
    pub open spec fn spec_alive(self, e: Entity) -> bool {
        &&& e.idx < self.slots@.len()
        &&& self.slots@[e.idx as int].alive
        &&& self.slots@[e.idx as int].gen == e.gen
    }

    /// Registry and storage invariant: the free list holds distinct dead
    /// slots, dead slots hold no components, stored components are in
    /// bounds, sparse stores are well-formed and name only live slots,
    /// cursors point into their logs, and the removal queue holds no
    /// duplicates.
    pub open spec fn wf(self) -> bool {
        &&& forall|i: int|
            0 <= i < self.free@.len() ==> (#[trigger] self.free@[i]) < self.slots@.len()
                && !self.slots@[self.free@[i] as int].alive
        &&& forall|i: int, j: int| 0 <= i < j < self.free@.len() ==> self.free@[i] != self.free@[j]
        &&& forall|i: int|
            0 <= i < self.slots@.len() && !(#[trigger] self.slots@[i]).alive ==> slot_empty(
                self.slots@[i],
            )
        &&& forall|i: int| 0 <= i < self.slots@.len() ==> slot_wf(#[trigger] self.slots@[i])
        &&& self.miners.wf()
        &&& self.lasers.wf()
        &&& self.coolers.wf()
        &&& self.missiles.wf()
        &&& self.asteroids.wf()
        &&& self.fields.wf()
        &&& forall|k: usize|
            #[trigger] self.miners.spec_get(k) is Some ==> k < self.slots@.len()
                && self.slots@[k as int].alive
        &&& forall|k: usize|
            #[trigger] self.lasers.spec_get(k) is Some ==> k < self.slots@.len()
                && self.slots@[k as int].alive
        &&& forall|k: usize|
            #[trigger] self.coolers.spec_get(k) is Some ==> k < self.slots@.len()
                && self.slots@[k as int].alive
        &&& forall|k: usize|
            #[trigger] self.missiles.spec_get(k) is Some ==> k < self.slots@.len()
                && self.slots@[k as int].alive
        &&& forall|k: usize|
            #[trigger] self.asteroids.spec_get(k) is Some ==> k < self.slots@.len()
                && self.slots@[k as int].alive
        &&& forall|k: usize|
            #[trigger] self.fields.spec_get(k) is Some ==> k < self.slots@.len()
                && self.slots@[k as int].alive
        &&& forall|k: usize|
            (#[trigger] self.fields.spec_get(k)) matches Some(f) ==> f.wf()
        &&& self.transform_events.wf()
        &&& self.model_events.wf()
        &&& self.utils.wf()
    }

    /// An empty world: no entities, no pending events, nothing rendered.
    pub fn new() -> (r: World)
        ensures
            r.wf(),
            r.slots@.len() == 0,
            r.free@.len() == 0,
            r.utils.to_be_removed@.len() == 0,
            r.transform_events.events@.len() == 0,
            r.transform_events.cursors@.len() == 0,
            r.model_events.events@.len() == 0,
            r.model_events.cursors@.len() == 0,
            r.renderer.calls@.len() == 0,
            forall|k: usize| #[trigger] r.miners.spec_get(k) is None,
            forall|k: usize| #[trigger] r.lasers.spec_get(k) is None,
            forall|k: usize| #[trigger] r.coolers.spec_get(k) is None,
            forall|k: usize| #[trigger] r.missiles.spec_get(k) is None,
            forall|k: usize| #[trigger] r.asteroids.spec_get(k) is None,
            forall|k: usize| #[trigger] r.fields.spec_get(k) is None,
    {
        World {
            slots: Vec::new(),
            free: Vec::new(),
            miners: SparseStore::new(),
            lasers: SparseStore::new(),
            coolers: SparseStore::new(),
            missiles: SparseStore::new(),
            asteroids: SparseStore::new(),
            fields: SparseStore::new(),
            transform_events: EventLog::new(),
            model_events: EventLog::new(),
            utils: EcsUtils::new(),
            renderer: MeshManager::new(),
        }
    }

    /// Allocate a fresh or recycled entity handle. The returned handle is
    /// live, its slot holds no components, and no previously issued
    /// handle gains or loses liveness.
    pub fn create_entity(&mut self) -> (r: Entity)
        requires
            old(self).wf(),
        ensures
            final(self).wf(),
            final(self).spec_alive(r),
            !old(self).spec_alive(r),
            r.idx >= old(self).slots@.len() || !old(self).slots@[r.idx as int].alive,
            r.idx < final(self).slots@.len(),
            final(self).slots@[r.idx as int] == (Slot {
                gen: r.gen,
                alive: true,
                transform: None,
                model: None,
                body: None,
                collider: None,
                health: None,
                ship: None,
                gadget: None,
                line: None,
            }),
            same_slots_except(*old(self), *final(self), r.idx as int)
                || final(self).slots@ == old(self).slots@.push(final(self).slots@[r.idx as int]),
            old(self).slots@.len() <= final(self).slots@.len() <= old(self).slots@.len() + 1,
            forall|j: int|
                0 <= j < old(self).slots@.len() && j != r.idx ==> old(self).slots@[j]
                    == final(self).slots@[j],
            forall|e: Entity| old(self).spec_alive(e) ==> final(self).spec_alive(e),
            same_sparse(*old(self), *final(self)),
            same_events(*old(self), *final(self)),
            final(self).utils == old(self).utils,
            final(self).renderer == old(self).renderer,
    {
        let popped = self.free.pop();
        match popped {
            Some(idx) => {
                let s = self.slots[idx];
                let e = Entity { idx, gen: s.gen };
                self.slots[idx] = Slot {
                    gen: s.gen,
                    alive: true,
                    transform: None,
                    model: None,
                    body: None,
                    collider: None,
                    health: None,
                    ship: None,
                    gadget: None,
                    line: None,
                };
                e
            },
            None => {
                let idx = self.slots.len();
                let e = Entity { idx, gen: 0 };
                self.slots.push(Slot {
                    gen: 0,
                    alive: true,
                    transform: None,
                    model: None,
                    body: None,
                    collider: None,
                    health: None,
                    ship: None,
                    gadget: None,
                    line: None,
                });
                e
            },
        }
    }

    /// Liveness check: rejects stale generations.
    pub fn is_alive(&self, e: Entity) -> (r: bool)
        ensures
            r == self.spec_alive(e),
    {
        if e.idx < self.slots.len() {
            let s = self.slots[e.idx];
            s.alive && s.gen == e.gen
        } else {
            false
        }
    }

    /// Delete an entity immediately: its handle turns stale, its slot is
    /// emptied and recycled, its sparse components are dropped, and a
    /// removal event is recorded for each tracked component it held.
    /// Deleting a dead or stale handle silently does nothing.
    ///
    /// Render handles are not released here: the deferred-removal flush
    /// releases them first and then calls this.
    pub fn delete(&mut self, e: Entity)
        requires
            old(self).wf(),
        ensures
            final(self).wf(),
            !old(self).spec_alive(e) ==> *final(self) == *old(self),
            old(self).spec_alive(e) ==> {
                &&& final(self).slots@ == old(self).slots@.update(
                    e.idx as int,
                    slot_cleared(old(self).slots@[e.idx as int]),
                )
                &&& final(self).free@ == old(self).free@.push(e.idx)
                &&& forall|k: usize|
                    #[trigger] final(self).miners.spec_get(k) == if k == e.idx {
                        None::<Miner>
                    } else {
                        old(self).miners.spec_get(k)
                    }
                &&& forall|k: usize|
                    #[trigger] final(self).lasers.spec_get(k) == if k == e.idx {
                        None::<Laser>
                    } else {
                        old(self).lasers.spec_get(k)
                    }
                &&& forall|k: usize|
                    #[trigger] final(self).coolers.spec_get(k) == if k == e.idx {
                        None::<Cooler>
                    } else {
                        old(self).coolers.spec_get(k)
                    }
                &&& forall|k: usize|
                    #[trigger] final(self).missiles.spec_get(k) == if k == e.idx {
                        None::<MiningMissile>
                    } else {
                        old(self).missiles.spec_get(k)
                    }
                &&& forall|k: usize|
                    #[trigger] final(self).asteroids.spec_get(k) == if k == e.idx {
                        None::<Asteroid>
                    } else {
                        old(self).asteroids.spec_get(k)
                    }
                &&& forall|k: usize|
                    #[trigger] final(self).fields.spec_get(k) == if k == e.idx {
                        None::<AsteroidField>
                    } else {
                        old(self).fields.spec_get(k)
                    }
                &&& final(self).transform_events.events@ == if old(self).slots@[e.idx as int].transform
                    is Some {
                    old(self).transform_events.events@.push(StoreEvent::Removed(e.idx))
                } else {
                    old(self).transform_events.events@
                }
                &&& final(self).transform_events.cursors@ == old(self).transform_events.cursors@
                &&& final(self).model_events.events@ == if old(self).slots@[e.idx as int].model
                    is Some {
                    old(self).model_events.events@.push(StoreEvent::Removed(e.idx))
                } else {
                    old(self).model_events.events@
                }
                &&& final(self).model_events.cursors@ == old(self).model_events.cursors@
                &&& final(self).utils == old(self).utils
                &&& final(self).renderer == old(self).renderer
            },
            forall|e2: Entity| e2 != e && old(self).spec_alive(e2) ==> final(self).spec_alive(e2),
    {
        if !self.is_alive(e) {
            return ;
        }
        let idx = e.idx;
        let s = self.slots[idx];
        if s.transform.is_some() {
            self.transform_events.push(StoreEvent::Removed(idx));
        }
        if s.model.is_some() {
            self.model_events.push(StoreEvent::Removed(idx));
        }
        let g = if s.gen == u32::MAX {
            0
        } else {
            s.gen + 1
        };
        self.slots[idx] = Slot {
            gen: g,
            alive: false,
            transform: None,
            model: None,
            body: None,
            collider: None,
            health: None,
            ship: None,
            gadget: None,
            line: None,
        };
        self.miners.remove(idx);
        self.lasers.remove(idx);
        self.coolers.remove(idx);
        self.missiles.remove(idx);
        self.asteroids.remove(idx);
        self.fields.remove(idx);
        self.free.push(idx);
        proof {
            assert forall|i: int, j: int|
                0 <= i < j < self.free@.len() implies self.free@[i] != self.free@[j] by {
                if j == self.free@.len() - 1 {
                    assert(old(self).free@[i] < old(self).slots@.len());
                }
            }
        }
    }

    /// Attach or overwrite the transform of a live entity, recording an
    /// insertion (or a modification, if one was already attached).
    /// A dead or stale handle is silently ignored.
    pub fn insert_transform(&mut self, e: Entity, t: Transform)
        requires
            old(self).wf(),
            t.wf(),
        ensures
            final(self).wf(),
            !old(self).spec_alive(e) ==> *final(self) == *old(self),
            old(self).spec_alive(e) ==> {
                &&& final(self).slots@ == old(self).slots@.update(
                    e.idx as int,
                    Slot { transform: Some(t), ..old(self).slots@[e.idx as int] },
                )
                &&& final(self).transform_events.events@ == old(
                    self,
                ).transform_events.events@.push(
                    if old(self).slots@[e.idx as int].transform is Some {
                        StoreEvent::Modified(e.idx)
                    } else {
                        StoreEvent::Inserted(e.idx)
                    },
                )
                &&& final(self).transform_events.cursors@ == old(self).transform_events.cursors@
                &&& final(self).model_events == old(self).model_events
                &&& same_aux(*old(self), *final(self))
            },
    {
        if !self.is_alive(e) {
            return ;
        }
        let idx = e.idx;
        let s = self.slots[idx];
        if s.transform.is_some() {
            self.transform_events.push(StoreEvent::Modified(idx));
        } else {
            self.transform_events.push(StoreEvent::Inserted(idx));
        }
        self.slots[idx] = Slot { transform: Some(t), ..s };
    }

    /// Overwrite the transform of a live entity that already has one,
    /// recording a modification. Absent component or stale handle:
    /// silently nothing.
    pub fn set_transform(&mut self, e: Entity, t: Transform)
        requires
            old(self).wf(),
            t.wf(),
        ensures
            final(self).wf(),
            !(old(self).spec_alive(e) && old(self).slots@[e.idx as int].transform is Some)
                ==> *final(self) == *old(self),
            old(self).spec_alive(e) && old(self).slots@[e.idx as int].transform is Some ==> {
                &&& final(self).slots@ == old(self).slots@.update(
                    e.idx as int,
                    Slot { transform: Some(t), ..old(self).slots@[e.idx as int] },
                )
                &&& final(self).transform_events.events@ == old(
                    self,
                ).transform_events.events@.push(StoreEvent::Modified(e.idx))
                &&& final(self).transform_events.cursors@ == old(self).transform_events.cursors@
                &&& final(self).model_events == old(self).model_events
                &&& same_aux(*old(self), *final(self))
            },
    {
        if !self.is_alive(e) {
            return ;
        }
        let idx = e.idx;
        let s = self.slots[idx];
        if s.transform.is_some() {
            self.transform_events.push(StoreEvent::Modified(idx));
            self.slots[idx] = Slot { transform: Some(t), ..s };
        }
    }

    /// The transform of a live entity; `None` for dead or stale handles.
    pub fn get_transform(&self, e: Entity) -> (r: Option<Transform>)
        ensures
            r == if self.spec_alive(e) {
                self.slots@[e.idx as int].transform
            } else {
                None::<Transform>
            },
    {
        if self.is_alive(e) {
            self.slots[e.idx].transform
        } else {
            None
        }
    }

    /// Attach or overwrite the model of a live entity, recording the
    /// change in the model stream.
    pub fn insert_model(&mut self, e: Entity, m: Model)
        requires
            old(self).wf(),
        ensures
            final(self).wf(),
            !old(self).spec_alive(e) ==> *final(self) == *old(self),
            old(self).spec_alive(e) ==> {
                &&& final(self).slots@ == old(self).slots@.update(
                    e.idx as int,
                    Slot { model: Some(m), ..old(self).slots@[e.idx as int] },
                )
                &&& final(self).model_events.events@ == old(self).model_events.events@.push(
                    if old(self).slots@[e.idx as int].model is Some {
                        StoreEvent::Modified(e.idx)
                    } else {
                        StoreEvent::Inserted(e.idx)
                    },
                )
                &&& final(self).model_events.cursors@ == old(self).model_events.cursors@
                &&& final(self).transform_events == old(self).transform_events
                &&& same_aux(*old(self), *final(self))
            },
    {
        if !self.is_alive(e) {
            return ;
        }
        let idx = e.idx;
        let s = self.slots[idx];
        if s.model.is_some() {
            self.model_events.push(StoreEvent::Modified(idx));
        } else {
            self.model_events.push(StoreEvent::Inserted(idx));
        }
        self.slots[idx] = Slot { model: Some(m), ..s };
    }

    /// The model of a live entity; `None` for dead or stale handles.
    pub fn get_model(&self, e: Entity) -> (r: Option<Model>)
        ensures
            r == if self.spec_alive(e) {
                self.slots@[e.idx as int].model
            } else {
                None::<Model>
            },
    {
        if self.is_alive(e) {
            self.slots[e.idx].model
        } else {
            None
        }
    }

    /// Set or clear the render handle stored on the model of the live
    /// entity in slot `idx`, without recording a change event (the handle
    /// is bookkeeping of the sync pass, not simulation state).
    pub fn set_model_id(&mut self, idx: usize, id: Option<u64>)
        requires
            old(self).wf(),
        ensures
            final(self).wf(),
            !(idx < old(self).slots@.len() && old(self).slots@[idx as int].alive && old(
                self,
            ).slots@[idx as int].model is Some) ==> *final(self) == *old(self),
            (idx < old(self).slots@.len() && old(self).slots@[idx as int].alive && old(
                self,
            ).slots@[idx as int].model is Some) ==> {
                &&& final(self).slots@ == old(self).slots@.update(
                    idx as int,
                    Slot {
                        model: Some(
                            Model {
                                mesh_id: old(self).slots@[idx as int].model->Some_0.mesh_id,
                                model_id: id,
                            },
                        ),
                        ..old(self).slots@[idx as int]
                    },
                )
                &&& same_events(*old(self), *final(self))
                &&& same_aux(*old(self), *final(self))
            },
    {
        if idx >= self.slots.len() {
            return ;
        }
        let s = self.slots[idx];
        if !s.alive {
            return ;
        }
        match s.model {
            Some(m) => {
                self.slots[idx] = Slot {
                    model: Some(Model { mesh_id: m.mesh_id, model_id: id }),
                    ..s
                };
            },
            None => {},
        }
    }

    /// Remove the model component of a live entity: releases its render
    /// handle (if it holds one) before the component disappears, and
    /// records the removal.
    pub fn remove_model(&mut self, e: Entity)
        requires
            old(self).wf(),
        ensures
            final(self).wf(),
            !(old(self).spec_alive(e) && old(self).slots@[e.idx as int].model is Some) ==> *final(self) == *old(self),
            (old(self).spec_alive(e) && old(self).slots@[e.idx as int].model is Some) ==> {
                &&& final(self).slots@ == old(self).slots@.update(
                    e.idx as int,
                    Slot { model: None, ..old(self).slots@[e.idx as int] },
                )
                &&& final(self).model_events.events@ == old(self).model_events.events@.push(
                    StoreEvent::Removed(e.idx),
                )
                &&& final(self).model_events.cursors@ == old(self).model_events.cursors@
                &&& final(self).transform_events == old(self).transform_events
                &&& final(self).renderer.calls@ == (
                match old(self).slots@[e.idx as int].model->Some_0.model_id {
                    Some(h) => old(self).renderer.calls@.push(
                        crate::render::RenderCall::Remove {
                            mesh_id: old(self).slots@[e.idx as int].model->Some_0.mesh_id,
                            handle: h,
                        },
                    ),
                    None => old(self).renderer.calls@,
                })
                &&& final(self).free == old(self).free
                &&& same_sparse(*old(self), *final(self))
                &&& final(self).utils == old(self).utils
            },
    {
        if !self.is_alive(e) {
            return ;
        }
        let idx = e.idx;
        let s = self.slots[idx];
        match s.model {
            Some(m) => {
                match m.model_id {
                    Some(h) => {
                        self.renderer.remove_model(m.mesh_id, h);
                    },
                    None => {},
                }
                self.model_events.push(StoreEvent::Removed(idx));
                self.slots[idx] = Slot { model: None, ..s };
            },
            None => {},
        }
    }

    /// Attach or overwrite the rigid body of a live entity.
    pub fn insert_body(&mut self, e: Entity, b: RigidBody)
        requires
            old(self).wf(),
            b.wf(),
        ensures
            final(self).wf(),
            !old(self).spec_alive(e) ==> *final(self) == *old(self),
            old(self).spec_alive(e) ==> {
                &&& final(self).slots@ == old(self).slots@.update(
                    e.idx as int,
                    Slot { body: Some(b), ..old(self).slots@[e.idx as int] },
                )
                &&& same_events(*old(self), *final(self))
                &&& same_aux(*old(self), *final(self))
            },
    {
        if !self.is_alive(e) {
            return ;
        }
        let idx = e.idx;
        let s = self.slots[idx];
        self.slots[idx] = Slot { body: Some(b), ..s };
    }

    /// The rigid body of a live entity; `None` for dead or stale handles.
    pub fn get_body(&self, e: Entity) -> (r: Option<RigidBody>)
        ensures
            r == if self.spec_alive(e) {
                self.slots@[e.idx as int].body
            } else {
                None::<RigidBody>
            },
    {
        if self.is_alive(e) {
            self.slots[e.idx].body
        } else {
            None
        }
    }

    /// Attach or overwrite the collider of a live entity.
    pub fn insert_collider(&mut self, e: Entity, c: Collider)
        requires
            old(self).wf(),
            c.wf(),
        ensures
            final(self).wf(),
            !old(self).spec_alive(e) ==> *final(self) == *old(self),
            old(self).spec_alive(e) ==> {
                &&& final(self).slots@ == old(self).slots@.update(
                    e.idx as int,
                    Slot { collider: Some(c), ..old(self).slots@[e.idx as int] },
                )
                &&& same_events(*old(self), *final(self))
                &&& same_aux(*old(self), *final(self))
            },
    {
        if !self.is_alive(e) {
            return ;
        }
        let idx = e.idx;
        let s = self.slots[idx];
        self.slots[idx] = Slot { collider: Some(c), ..s };
    }

    /// The collider of a live entity; `None` for dead or stale handles.
    pub fn get_collider(&self, e: Entity) -> (r: Option<Collider>)
        ensures
            r == if self.spec_alive(e) {
                self.slots@[e.idx as int].collider
            } else {
                None::<Collider>
            },
    {
        if self.is_alive(e) {
            self.slots[e.idx].collider
        } else {
            None
        }
    }

    /// Attach or overwrite the health of a live entity.
    pub fn insert_health(&mut self, e: Entity, h: Health)
        requires
            old(self).wf(),
        ensures
            final(self).wf(),
            !old(self).spec_alive(e) ==> *final(self) == *old(self),
            old(self).spec_alive(e) ==> {
                &&& final(self).slots@ == old(self).slots@.update(
                    e.idx as int,
                    Slot { health: Some(h), ..old(self).slots@[e.idx as int] },
                )
                &&& same_events(*old(self), *final(self))
                &&& same_aux(*old(self), *final(self))
            },
    {
        if !self.is_alive(e) {
            return ;
        }
        let idx = e.idx;
        let s = self.slots[idx];
        self.slots[idx] = Slot { health: Some(h), ..s };
    }

    /// The health of a live entity; `None` for dead or stale handles.
    pub fn get_health(&self, e: Entity) -> (r: Option<Health>)
        ensures
            r == if self.spec_alive(e) {
                self.slots@[e.idx as int].health
            } else {
                None::<Health>
            },
    {
        if self.is_alive(e) {
            self.slots[e.idx].health
        } else {
            None
        }
    }

    /// Subtract `amount` hit points from a live entity that has health,
    /// saturating at the lowest representable value. Anything else is
    /// silently ignored.
    pub fn damage(&mut self, e: Entity, amount: u32)
        requires
            old(self).wf(),
        ensures
            final(self).wf(),
            !(old(self).spec_alive(e) && old(self).slots@[e.idx as int].health is Some) ==> *final(self) == *old(self),
            (old(self).spec_alive(e) && old(self).slots@[e.idx as int].health is Some) ==> {
                &&& final(self).slots@ == old(self).slots@.update(
                    e.idx as int,
                    Slot {
                        health: Some(
                            Health(
                                if old(self).slots@[e.idx as int].health->Some_0.0 - amount
                                    >= i64::MIN {
                                    (old(self).slots@[e.idx as int].health->Some_0.0
                                        - amount) as i64
                                } else {
                                    i64::MIN
                                },
                            ),
                        ),
                        ..old(self).slots@[e.idx as int]
                    },
                )
                &&& same_events(*old(self), *final(self))
                &&& same_aux(*old(self), *final(self))
            },
    {
        if !self.is_alive(e) {
            return ;
        }
        let idx = e.idx;
        let s = self.slots[idx];
        match s.health {
            Some(Health(h)) => {
                let d = amount as i64;
                let nh = if h >= i64::MIN + d {
                    h - d
                } else {
                    i64::MIN
                };
                self.slots[idx] = Slot { health: Some(Health(nh)), ..s };
            },
            None => {},
        }
    }

    /// Attach or overwrite the ship aggregate of a live entity.
    pub fn insert_ship(&mut self, e: Entity, s: Ship)
        requires
            old(self).wf(),
        ensures
            final(self).wf(),
            !old(self).spec_alive(e) ==> *final(self) == *old(self),
            old(self).spec_alive(e) ==> {
                &&& final(self).slots@ == old(self).slots@.update(
                    e.idx as int,
                    Slot { ship: Some(s), ..old(self).slots@[e.idx as int] },
                )
                &&& same_events(*old(self), *final(self))
                &&& same_aux(*old(self), *final(self))
            },
    {
        if !self.is_alive(e) {
            return ;
        }
        let idx = e.idx;
        let sl = self.slots[idx];
        self.slots[idx] = Slot { ship: Some(s), ..sl };
    }

    /// The ship aggregate of a live entity.
    pub fn get_ship(&self, e: Entity) -> (r: Option<Ship>)
        ensures
            r == if self.spec_alive(e) {
                self.slots@[e.idx as int].ship
            } else {
                None::<Ship>
            },
    {
        if self.is_alive(e) {
            self.slots[e.idx].ship
        } else {
            None
        }
    }

    /// Overwrite the ship aggregate of a live entity that has one.
    pub fn set_ship(&mut self, e: Entity, s: Ship)
        requires
            old(self).wf(),
        ensures
            final(self).wf(),
            !(old(self).spec_alive(e) && old(self).slots@[e.idx as int].ship is Some) ==> *final(self) == *old(self),
            (old(self).spec_alive(e) && old(self).slots@[e.idx as int].ship is Some) ==> {
                &&& final(self).slots@ == old(self).slots@.update(
                    e.idx as int,
                    Slot { ship: Some(s), ..old(self).slots@[e.idx as int] },
                )
                &&& same_events(*old(self), *final(self))
                &&& same_aux(*old(self), *final(self))
            },
    {
        if !self.is_alive(e) {
            return ;
        }
        let idx = e.idx;
        let sl = self.slots[idx];
        if sl.ship.is_some() {
            self.slots[idx] = Slot { ship: Some(s), ..sl };
        }
    }

    /// Attach the back-reference from a gadget block to its owning ship.
    pub fn insert_gadget(&mut self, e: Entity, g: GadgetEntity)
        requires
            old(self).wf(),
        ensures
            final(self).wf(),
            !old(self).spec_alive(e) ==> *final(self) == *old(self),
            old(self).spec_alive(e) ==> {
                &&& final(self).slots@ == old(self).slots@.update(
                    e.idx as int,
                    Slot { gadget: Some(g), ..old(self).slots@[e.idx as int] },
                )
                &&& same_events(*old(self), *final(self))
                &&& same_aux(*old(self), *final(self))
            },
    {
        if !self.is_alive(e) {
            return ;
        }
        let idx = e.idx;
        let s = self.slots[idx];
        self.slots[idx] = Slot { gadget: Some(g), ..s };
    }

    /// The owning-ship back-reference of a live gadget entity.
    pub fn get_gadget(&self, e: Entity) -> (r: Option<GadgetEntity>)
        ensures
            r == if self.spec_alive(e) {
                self.slots@[e.idx as int].gadget
            } else {
                None::<GadgetEntity>
            },
    {
        if self.is_alive(e) {
            self.slots[e.idx].gadget
        } else {
            None
        }
    }

    /// Attach or overwrite the beam-line component of a live entity.
    pub fn insert_line(&mut self, e: Entity, l: Line)
        requires
            old(self).wf(),
        ensures
            final(self).wf(),
            !old(self).spec_alive(e) ==> *final(self) == *old(self),
            old(self).spec_alive(e) ==> {
                &&& final(self).slots@ == old(self).slots@.update(
                    e.idx as int,
                    Slot { line: Some(l), ..old(self).slots@[e.idx as int] },
                )
                &&& same_events(*old(self), *final(self))
                &&& same_aux(*old(self), *final(self))
            },
    {
        if !self.is_alive(e) {
            return ;
        }
        let idx = e.idx;
        let s = self.slots[idx];
        self.slots[idx] = Slot { line: Some(l), ..s };
    }

    /// The beam-line component of a live entity.
    pub fn get_line(&self, e: Entity) -> (r: Option<Line>)
        ensures
            r == if self.spec_alive(e) {
                self.slots@[e.idx as int].line
            } else {
                None::<Line>
            },
    {
        if self.is_alive(e) {
            self.slots[e.idx].line
        } else {
            None
        }
    }

    /// Attach mining-turret state to a live entity.
    pub fn insert_miner(&mut self, e: Entity, m: Miner)
        requires
            old(self).wf(),
        ensures
            final(self).wf(),
            !old(self).spec_alive(e) ==> *final(self) == *old(self),
            old(self).spec_alive(e) ==> {
                &&& forall|k: usize|
                    #[trigger] final(self).miners.spec_get(k) == if k == e.idx {
                        Some(m)
                    } else {
                        old(self).miners.spec_get(k)
                    }
                &&& final(self).slots == old(self).slots
                &&& final(self).free == old(self).free
                &&& final(self).lasers == old(self).lasers
                &&& final(self).coolers == old(self).coolers
                &&& final(self).missiles == old(self).missiles
                &&& final(self).asteroids == old(self).asteroids
                &&& final(self).fields == old(self).fields
                &&& same_events(*old(self), *final(self))
                &&& final(self).utils == old(self).utils
                &&& final(self).renderer == old(self).renderer
            },
    {
        if !self.is_alive(e) {
            return ;
        }
        self.miners.insert(e.idx, m);
    }

    /// Attach the laser marker to a live entity.
    pub fn insert_laser(&mut self, e: Entity, l: Laser)
        requires
            old(self).wf(),
        ensures
            final(self).wf(),
            !old(self).spec_alive(e) ==> *final(self) == *old(self),
            old(self).spec_alive(e) ==> {
                &&& forall|k: usize|
                    #[trigger] final(self).lasers.spec_get(k) == if k == e.idx {
                        Some(l)
                    } else {
                        old(self).lasers.spec_get(k)
                    }
                &&& final(self).slots == old(self).slots
                &&& final(self).free == old(self).free
                &&& final(self).miners == old(self).miners
                &&& final(self).coolers == old(self).coolers
                &&& final(self).missiles == old(self).missiles
                &&& final(self).asteroids == old(self).asteroids
                &&& final(self).fields == old(self).fields
                &&& same_events(*old(self), *final(self))
                &&& final(self).utils == old(self).utils
                &&& final(self).renderer == old(self).renderer
            },
    {
        if !self.is_alive(e) {
            return ;
        }
        self.lasers.insert(e.idx, l);
    }

    /// Attach the cooler marker to a live entity.
    pub fn insert_cooler(&mut self, e: Entity, c: Cooler)
        requires
            old(self).wf(),
        ensures
            final(self).wf(),
            !old(self).spec_alive(e) ==> *final(self) == *old(self),
            old(self).spec_alive(e) ==> {
                &&& forall|k: usize|
                    #[trigger] final(self).coolers.spec_get(k) == if k == e.idx {
                        Some(c)
                    } else {
                        old(self).coolers.spec_get(k)
                    }
                &&& final(self).slots == old(self).slots
                &&& final(self).free == old(self).free
                &&& final(self).miners == old(self).miners
                &&& final(self).lasers == old(self).lasers
                &&& final(self).missiles == old(self).missiles
                &&& final(self).asteroids == old(self).asteroids
                &&& final(self).fields == old(self).fields
                &&& same_events(*old(self), *final(self))
                &&& final(self).utils == old(self).utils
                &&& final(self).renderer == old(self).renderer
            },
    {
        if !self.is_alive(e) {
            return ;
        }
        self.coolers.insert(e.idx, c);
    }

    /// Attach a mining-missile component to a live entity.
    pub fn insert_missile(&mut self, e: Entity, m: MiningMissile)
        requires
            old(self).wf(),
        ensures
            final(self).wf(),
            !old(self).spec_alive(e) ==> *final(self) == *old(self),
            old(self).spec_alive(e) ==> {
                &&& forall|k: usize|
                    #[trigger] final(self).missiles.spec_get(k) == if k == e.idx {
                        Some(m)
                    } else {
                        old(self).missiles.spec_get(k)
                    }
                &&& final(self).slots == old(self).slots
                &&& final(self).free == old(self).free
                &&& final(self).miners == old(self).miners
                &&& final(self).lasers == old(self).lasers
                &&& final(self).coolers == old(self).coolers
                &&& final(self).asteroids == old(self).asteroids
                &&& final(self).fields == old(self).fields
                &&& same_events(*old(self), *final(self))
                &&& final(self).utils == old(self).utils
                &&& final(self).renderer == old(self).renderer
            },
    {
        if !self.is_alive(e) {
            return ;
        }
        self.missiles.insert(e.idx, m);
    }

    /// Attach the asteroid marker to a live entity.
    pub fn insert_asteroid(&mut self, e: Entity, a: Asteroid)
        requires
            old(self).wf(),
        ensures
            final(self).wf(),
            !old(self).spec_alive(e) ==> *final(self) == *old(self),
            old(self).spec_alive(e) ==> {
                &&& forall|k: usize|
                    #[trigger] final(self).asteroids.spec_get(k) == if k == e.idx {
                        Some(a)
                    } else {
                        old(self).asteroids.spec_get(k)
                    }
                &&& final(self).slots == old(self).slots
                &&& final(self).free == old(self).free
                &&& final(self).miners == old(self).miners
                &&& final(self).lasers == old(self).lasers
                &&& final(self).coolers == old(self).coolers
                &&& final(self).missiles == old(self).missiles
                &&& final(self).fields == old(self).fields
                &&& same_events(*old(self), *final(self))
                &&& final(self).utils == old(self).utils
                &&& final(self).renderer == old(self).renderer
            },
    {
        if !self.is_alive(e) {
            return ;
        }
        self.asteroids.insert(e.idx, a);
    }

    /// Attach an asteroid-field component to a live entity.
    pub fn insert_field(&mut self, e: Entity, f: AsteroidField)
        requires
            old(self).wf(),
            f.wf(),
        ensures
            final(self).wf(),
            !old(self).spec_alive(e) ==> *final(self) == *old(self),
            old(self).spec_alive(e) ==> {
                &&& forall|k: usize|
                    #[trigger] final(self).fields.spec_get(k) == if k == e.idx {
                        Some(f)
                    } else {
                        old(self).fields.spec_get(k)
                    }
                &&& final(self).slots == old(self).slots
                &&& final(self).free == old(self).free
                &&& final(self).miners == old(self).miners
                &&& final(self).lasers == old(self).lasers
                &&& final(self).coolers == old(self).coolers
                &&& final(self).missiles == old(self).missiles
                &&& final(self).asteroids == old(self).asteroids
                &&& same_events(*old(self), *final(self))
                &&& final(self).utils == old(self).utils
                &&& final(self).renderer == old(self).renderer
            },
    {
        if !self.is_alive(e) {
            return ;
        }
        self.fields.insert(e.idx, f);
    }

    /// Subscribe a reader to the transform change stream.
    pub fn register_transform_reader(&mut self) -> (r: usize)
        requires
            old(self).wf(),
        ensures
            final(self).wf(),
            r == old(self).transform_events.cursors@.len(),
            final(self).transform_events.events@ == old(self).transform_events.events@,
            final(self).transform_events.cursors@.len() == r + 1,
            final(self).slots == old(self).slots,
            final(self).model_events == old(self).model_events,
            same_aux(*old(self), *final(self)),
    {
        self.transform_events.register_reader()
    }

    /// Subscribe a reader to the model change stream.
    pub fn register_model_reader(&mut self) -> (r: usize)
        requires
            old(self).wf(),
        ensures
            final(self).wf(),
            r == old(self).model_events.cursors@.len(),
            final(self).model_events.events@ == old(self).model_events.events@,
            final(self).model_events.cursors@.len() == r + 1,
            final(self).slots == old(self).slots,
            final(self).transform_events == old(self).transform_events,
            same_aux(*old(self), *final(self)),
    {
        self.model_events.register_reader()
    }

    /// Drain the transform change stream for one reader.
    pub fn read_transform_events(&mut self, reader: usize) -> (r: Vec<StoreEvent>)
        requires
            old(self).wf(),
            reader < old(self).transform_events.cursors@.len(),
        ensures
            final(self).wf(),
            r@ == old(self).transform_events.events@.subrange(
                old(self).transform_events.cursors@[reader as int] as int,
                old(self).transform_events.events@.len() as int,
            ),
            final(self).transform_events.events@ == old(self).transform_events.events@,
            final(self).transform_events.cursors@ == old(self).transform_events.cursors@.update(
                reader as int,
                old(self).transform_events.events@.len() as usize,
            ),
            final(self).slots == old(self).slots,
            final(self).model_events == old(self).model_events,
            same_aux(*old(self), *final(self)),
    {
        self.transform_events.read(reader)
    }

    /// Drain the model change stream for one reader.
    pub fn read_model_events(&mut self, reader: usize) -> (r: Vec<StoreEvent>)
        requires
            old(self).wf(),
            reader < old(self).model_events.cursors@.len(),
        ensures
            final(self).wf(),
            r@ == old(self).model_events.events@.subrange(
                old(self).model_events.cursors@[reader as int] as int,
                old(self).model_events.events@.len() as int,
            ),
            final(self).model_events.events@ == old(self).model_events.events@,
            final(self).model_events.cursors@ == old(self).model_events.cursors@.update(
                reader as int,
                old(self).model_events.events@.len() as usize,
            ),
            final(self).slots == old(self).slots,
            final(self).transform_events == old(self).transform_events,
            same_aux(*old(self), *final(self)),
    {
        self.model_events.read(reader)
    }

    /// Flush the deferred-removal queue: for each marked entity, in mark
    /// order, release its render handle (if its model holds one) and
    /// only then delete it; finally clear the queue. Marks of dead or
    /// stale handles are skipped. The queue never holds an entity twice,
    /// so each marked entity is deleted exactly once and its handle
    /// released exactly once — and never observed outstanding after the
    /// deletion.
    pub fn maintain(&mut self)
        requires
            old(self).wf(),
        ensures
            final(self).wf(),
            final(self).utils.to_be_removed@.len() == 0,
            final(self).slots@.len() == old(self).slots@.len(),
            // every live marked entity is gone, its slot emptied
            forall|j: int|
                0 <= j < old(self).utils.to_be_removed@.len() && old(self).spec_alive(
                    #[trigger] old(self).utils.to_be_removed@[j],
                ) ==> final(self).slots@[old(self).utils.to_be_removed@[j].idx as int]
                    == slot_cleared(
                    old(self).slots@[old(self).utils.to_be_removed@[j].idx as int],
                ) && !final(self).spec_alive(old(self).utils.to_be_removed@[j]),
            // unmarked slots are untouched
            forall|i: int|
                0 <= i < old(self).slots@.len() && !marked_idx(*old(self), i) ==> final(self).slots@[i] == old(self).slots@[i],
            // live entities that were not marked stay live
            forall|e: Entity|
                old(self).spec_alive(e) && !old(self).utils.to_be_removed@.contains(e) ==> final(self).spec_alive(e),
            // exactly the handle releases, in mark order, before anything else
            final(self).renderer.calls@ == old(self).renderer.calls@ + flush_calls(
                old(self).slots@,
                old(self).utils.to_be_removed@,
            ),
            final(self).transform_events.cursors@ == old(self).transform_events.cursors@,
            final(self).model_events.cursors@ == old(self).model_events.cursors@,
    {
        let ghost s0 = old(self).slots@;
        let ghost q = old(self).utils.to_be_removed@;
        let n = self.utils.to_be_removed.len();
        let mut i: usize = 0;
        while i < n
            invariant
                self.wf(),
                i <= n,
                self.utils == old(self).utils,
                n == q.len(),
                q == self.utils.to_be_removed@,
                s0 == old(self).slots@,
                self.slots@.len() == s0.len(),
                old(self).wf(),
                // processed live marks are cleared; everything else untouched
                forall|m: int|
                    0 <= m < i && old(self).spec_alive(#[trigger] q[m]) ==> self.slots@[q[m].idx as int]
                        == slot_cleared(s0[q[m].idx as int]),
                forall|x: int|
                    0 <= x < s0.len() && !(exists|m: int|
                        0 <= m < i && (#[trigger] q[m]).idx == x && old(self).spec_alive(q[m]))
                        ==> self.slots@[x] == s0[x],
                self.renderer.calls@ == old(self).renderer.calls@ + flush_calls(s0, q.take(i as int)),
                self.transform_events.cursors@ == old(self).transform_events.cursors@,
                self.model_events.cursors@ == old(self).model_events.cursors@,
            decreases n - i,
        {
            let e = self.utils.to_be_removed[i];
            proof {
                assert(q.take(i + 1).drop_last() =~= q.take(i as int));
                assert(q.take(i + 1).last() == q[i as int]);
            }
            if self.is_alive(e) {
                proof {
                    // a live mark was not cleared by an earlier mark: an
                    // earlier live mark on the same slot would carry the same
                    // generation, hence be the same entity, and the queue
                    // holds no duplicates
                    if exists|m: int|
                        0 <= m < i && (#[trigger] q[m]).idx == e.idx && old(self).spec_alive(
                            q[m],
                        ) {
                        let m = choose|m: int|
                            0 <= m < i && (#[trigger] q[m]).idx == e.idx && old(self).spec_alive(
                                q[m],
                            );
                        assert(self.slots@[e.idx as int] == slot_cleared(s0[q[m].idx as int]));
                        assert(false);
                    }
                    assert(self.slots@[e.idx as int] == s0[e.idx as int]);
                }
                let m = self.get_model(e);
                match m {
                    Some(model) => {
                        match model.model_id {
                            Some(h) => {
                                self.renderer.remove_model(model.mesh_id, h);
                                self.set_model_id(e.idx, None);
                                proof {
                                    assert(self.renderer.calls@ =~= old(self).renderer.calls@
                                        + flush_calls(s0, q.take(i as int)) + flush_release(
                                        s0,
                                        e,
                                    ));
                                }
                            },
                            None => {
                                proof {
                                    assert(flush_release(s0, e) =~= Seq::<
                                        crate::render::RenderCall,
                                    >::empty());
                                    assert(self.renderer.calls@ =~= old(self).renderer.calls@
                                        + flush_calls(s0, q.take(i as int)) + flush_release(
                                        s0,
                                        e,
                                    ));
                                }
                            },
                        }
                    },
                    None => {
                        proof {
                            assert(flush_release(s0, e) =~= Seq::<
                                crate::render::RenderCall,
                            >::empty());
                            assert(self.renderer.calls@ =~= old(self).renderer.calls@
                                + flush_calls(s0, q.take(i as int)) + flush_release(s0, e));
                        }
                    },
                }
                self.delete(e);
                proof {
                    assert(self.renderer.calls@ =~= old(self).renderer.calls@ + flush_calls(
                        s0,
                        q.take(i + 1),
                    ));
                }
            } else {
                proof {
                    // a mark that is dead now was already dead at the start
                    // of the flush: a live mark is never cleared by an
                    // earlier mark (that would be a duplicate), so it would
                    // still be live here; hence no release is owed
                    if old(self).spec_alive(e) {
                        if exists|m: int|
                            0 <= m < i && (#[trigger] q[m]).idx == e.idx && old(self).spec_alive(
                                q[m],
                            ) {
                            let m = choose|m: int|
                                0 <= m < i && (#[trigger] q[m]).idx == e.idx && old(
                                    self,
                                ).spec_alive(q[m]);
                            assert(q[m].gen == s0[e.idx as int].gen);
                            assert(q[m] == q[i as int]);
                            assert(false);
                        }
                        assert(self.slots@[e.idx as int] == s0[e.idx as int]);
                        assert(false);
                    }
                    assert(flush_release(s0, e) =~= Seq::<crate::render::RenderCall>::empty());
                    assert(self.renderer.calls@ =~= old(self).renderer.calls@ + flush_calls(
                        s0,
                        q.take(i + 1),
                    ));
                }
            }
            i += 1;
        }
        proof {
            assert(q.take(n as int) =~= q);
        }
        self.utils.to_be_removed.clear();
        proof {
            assert forall|e: Entity|
                old(self).spec_alive(e) && !q.contains(e) implies self.spec_alive(e) by {
                if exists|m: int|
                    0 <= m < n && (#[trigger] q[m]).idx == e.idx && old(self).spec_alive(q[m]) {
                    let m = choose|m: int|
                        0 <= m < n && (#[trigger] q[m]).idx == e.idx && old(self).spec_alive(q[m]);
                    assert(q[m].gen == e.gen);
                    assert(q.contains(q[m]));
                }
            }
        }
    }

    /// Detach the beam-line component of a live entity, if any.
    pub fn remove_line(&mut self, e: Entity)
        requires
            old(self).wf(),
        ensures
            final(self).wf(),
            !(old(self).spec_alive(e) && old(self).slots@[e.idx as int].line is Some) ==> *final(self) == *old(self),
            (old(self).spec_alive(e) && old(self).slots@[e.idx as int].line is Some) ==> {
                &&& final(self).slots@ == old(self).slots@.update(
                    e.idx as int,
                    Slot { line: None, ..old(self).slots@[e.idx as int] },
                )
                &&& same_events(*old(self), *final(self))
                &&& same_aux(*old(self), *final(self))
            },
    {
        if !self.is_alive(e) {
            return ;
        }
        let idx = e.idx;
        let s = self.slots[idx];
        if s.line.is_some() {
            self.slots[idx] = Slot { line: None, ..s };
        }
    }
}

} // verus!
