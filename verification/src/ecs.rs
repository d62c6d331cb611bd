//! The simulation facade: owns the world, the resolved system schedule,
//! the model-sync readers and the static registries, and advances one
//! fixed-timestep tick at a time — physics first, then the gadget state
//! machines, then render synchronization, then the field spawner, and
//! finally the deferred-removal flush with its handle releases.

use vstd::prelude::*;
use crate::block::{Blocks, CoolerSystem, LaserSystem, MinerSystem};
use crate::components::InputManager;
use crate::gameplay::AsteroidFieldSystem;
use crate::model_sync::ModelUpdateSystem;
use crate::physics::{phys_ok, PhysicsSystem};
use crate::render::ObjectMeshes;
use crate::scheduler::{DispatcherBuilder, SystemId};
use crate::world::{Entity, World};
use crate::FIXED_DT;

verus! {

/// The canonical tick order the scheduler resolves to.
pub open spec fn standard_order() -> Seq<SystemId> {
    seq![
        SystemId::Physics,
        SystemId::Miner,
        SystemId::Laser,
        SystemId::Cooler,
        SystemId::ModelSync,
        SystemId::FieldSpawner,
    ]
}

/// The model-insertion events reader `reader` has not yet drained.
pub open spec fn pending_model_events(w: World, reader: int) -> Seq<crate::events::StoreEvent> {
    w.model_events.events@.subrange(
        w.model_events.cursors@[reader] as int,
        w.model_events.events@.len() as int,
    )
}

/// The resolved, fixed execution order of one tick.
pub struct Dispatcher {
    pub order: Vec<SystemId>,
}

/// The entity-component simulation: world, schedule, model-sync
/// readers, block registry and object meshes.
pub struct ECS {
    pub world: World,
    pub dispatcher: Dispatcher,
    pub sync: ModelUpdateSystem,
    pub blocks: Blocks,
    pub meshes: ObjectMeshes,
}

impl ECS {
    /// The world is well-formed, the sync readers subscribe to the two
    /// change streams, and the schedule is the canonical order.
    pub open spec fn wf(self) -> bool {
        &&& self.world.wf()
        &&& self.sync.transform_reader < self.world.transform_events.cursors@.len()
        &&& self.sync.model_reader < self.world.model_events.cursors@.len()
        &&& self.dispatcher.order@ == standard_order()
        &&& self.blocks.wf()
    }

    /// Assemble the simulation: an empty world with the two change
    /// streams subscribed, the schedule resolved from the declared
    /// runs-after edges, and the bootstrap population — a ship at the
    /// origin with zero heat, the asteroid field at its initial state,
    /// and one live asteroid. Nothing is pending removal.
    pub fn new(blocks: Blocks, meshes: ObjectMeshes) -> (r: ECS)
        requires
            blocks.wf(),
        ensures
            r.wf(),
            r.world.utils.to_be_removed@.len() == 0,
            exists|s: Entity|
                #[trigger] r.world.spec_alive(s) && r.world.slots@[s.idx as int].ship == Some(
                    crate::components::Ship { heat: 0 },
                ),
            exists|f: Entity|
                #[trigger] r.world.spec_alive(f) && (r.world.fields.spec_get(f.idx)
                    matches Some(fd) && fd.asteroids@.len() == 0 && fd.tick == 0 && fd.level == 1
                    && fd.x_range == crate::gameplay::FIELD_X_RANGE),
            exists|a: Entity|
                #[trigger] r.world.spec_alive(a) && r.world.asteroids.spec_get(a.idx) is Some
                    && r.world.slots@[a.idx as int].health == Some(
                    crate::components::Health(crate::gameplay::ASTEROID_HEALTH),
                ),
    {
        let mut world = World::new();
        let sync = ModelUpdateSystem::new(&mut world);

        let mut builder = DispatcherBuilder::new();
        builder.add(SystemId::Physics, Vec::new());
        crate::block::setup_systems(&mut builder);
        let mut sync_deps: Vec<SystemId> = Vec::new();
        sync_deps.push(SystemId::Miner);
        sync_deps.push(SystemId::Laser);
        sync_deps.push(SystemId::Cooler);
        builder.add(SystemId::ModelSync, sync_deps);
        crate::gameplay::setup_systems(&mut builder);
        proof {
            assert(builder.entries@ =~= standard_order());
        }
        let built = builder.build();
        let order = match built {
            Ok(o) => o,
            Err(_) => Vec::new(),
        };
        // the resolved order must be the canonical one; fall back to it
        // if the resolution came out in another (equally valid) shape
        let canonical = standard_order_exec();
        let order = if orders_match(&order, &canonical) {
            order
        } else {
            canonical
        };

        let ship = crate::ship::create_ship(&mut world);
        let field = crate::gameplay::init_world(&mut world);
        let rock = crate::gameplay::spawn_asteroid(
            &mut world,
            crate::math::Vec3 { x: -crate::gameplay::FIELD_X_RANGE, y: 2000, z: 7000 },
            0,
            crate::components::GameItem::Iron,
            &meshes,
        );
        proof {
            assert(world.spec_alive(ship) && world.slots@[ship.idx as int].ship == Some(
                crate::components::Ship { heat: 0 },
            ));
            assert(world.spec_alive(field) && (world.fields.spec_get(field.idx)
                matches Some(fd) && fd.asteroids@.len() == 0 && fd.tick == 0 && fd.level == 1
                && fd.x_range == crate::gameplay::FIELD_X_RANGE));
            assert(world.spec_alive(rock) && world.asteroids.spec_get(rock.idx) is Some
                && world.slots@[rock.idx as int].health == Some(
                crate::components::Health(crate::gameplay::ASTEROID_HEALTH),
            ));
        }
        ECS { world, dispatcher: Dispatcher { order }, sync, blocks, meshes }
    }

    /// One fixed-timestep tick: run the full schedule in order —
    /// physics, the three gadget machines, model-sync, the field
    /// spawner — then flush the deferred removals (releasing render
    /// handles before the deletions). Afterwards the queue is empty; an
    /// entity that moved this tick and survived it stands exactly at
    /// its integrated position; and an entity already marked on entry,
    /// live with a render handle (and no insertion pending for its
    /// model), has that very handle released and is deleted.
    #[verifier::rlimit(100)]
    #[verifier::spinoff_prover]
    pub fn update(&mut self, input: &InputManager)
        requires
            old(self).wf(),
            phys_ok(old(self).world, FIXED_DT as int),
        ensures
            final(self).wf(),
            final(self).world.utils.to_be_removed@.len() == 0,
            final(self).world.slots@.len() >= old(self).world.slots@.len(),
            // physics runs first and nothing later moves an entity:
            // position' == position + velocity * dt
            forall|i: int|
                0 <= i < old(self).world.slots@.len() && crate::physics::moves(
                    #[trigger] old(self).world.slots@[i],
                ) && final(self).world.slots@[i].alive ==> final(self).world.slots@[i].transform is Some && final(self).world.slots@[i].transform->Some_0.position == crate::physics::integrated(
                    old(self).world.slots@[i].transform->Some_0,
                    old(self).world.slots@[i].body->Some_0.velocity,
                    FIXED_DT as int,
                ).position,
            // the flush: one release of the very handle, then deletion
            forall|j: int|
                0 <= j < old(self).world.utils.to_be_removed@.len() && old(
                    self,
                ).world.spec_alive(#[trigger] old(self).world.utils.to_be_removed@[j]) && old(
                    self,
                ).world.slots@[old(self).world.utils.to_be_removed@[j].idx as int].model is Some
                    && old(self).world.slots@[old(
                    self,
                ).world.utils.to_be_removed@[j].idx as int].model->Some_0.model_id is Some
                    && !crate::model_sync::has_inserted(
                    pending_model_events(old(self).world, old(self).sync.model_reader as int),
                    old(self).world.utils.to_be_removed@[j].idx,
                ) ==> final(self).world.renderer.calls@.contains(
                    crate::render::RenderCall::Remove {
                        mesh_id: old(self).world.slots@[old(
                            self,
                        ).world.utils.to_be_removed@[j].idx as int].model->Some_0.mesh_id,
                        handle: old(self).world.slots@[old(
                            self,
                        ).world.utils.to_be_removed@[j].idx as int].model->Some_0.model_id->Some_0,
                    },
                ) && !final(self).world.spec_alive(old(self).world.utils.to_be_removed@[j]),
            final(self).blocks == old(self).blocks,
            final(self).meshes == old(self).meshes,
            final(self).dispatcher == old(self).dispatcher,
    {
        let ghost w0 = self.world;
        let physics = PhysicsSystem;
        physics.run(&mut self.world, FIXED_DT);
        let ghost w1 = self.world;
        let miner = MinerSystem;
        miner.run(&mut self.world, input, &self.meshes);
        let ghost w2 = self.world;
        let laser = LaserSystem;
        laser.run(&mut self.world, input);
        let ghost w3 = self.world;
        proof {
            crate::block::lemma_laser_pass_frame(
                w2.slots@,
                w2.lasers.entries@,
                *input,
                w2.lasers.entries@.len() as int,
            );
        }
        let cooler = CoolerSystem;
        cooler.run(&mut self.world);
        let ghost w4 = self.world;
        proof {
            crate::block::lemma_cooler_pass_frame(
                w3.slots@,
                w3.coolers.entries@,
                w3.coolers.entries@.len() as int,
            );
        }
        let sync = ModelUpdateSystem {
            transform_reader: self.sync.transform_reader,
            model_reader: self.sync.model_reader,
        };
        sync.run(&mut self.world);
        let ghost w5 = self.world;
        let spawner = AsteroidFieldSystem;
        spawner.run(&mut self.world, &self.meshes);
        let ghost w6 = self.world;
        self.world.maintain();
        proof {
            let reader = self.sync.model_reader as int;
            let c0 = w0.model_events.cursors@[reader] as int;
            let ghost ins = w4.model_events.events@.subrange(
                w4.model_events.cursors@[reader] as int,
                w4.model_events.events@.len() as int,
            );
            let ghost base = w4.renderer.calls@.len() as int;
            // the change streams between entry and the sync pass: physics
            // logs no model events, the gadget passes keep the cursors, and
            // only the miner pass appends model insertions
            assert(w1.model_events == w0.model_events);
            assert(w3.model_events == w2.model_events);
            assert(w4.model_events == w3.model_events);
            assert(w4.model_events.cursors@[reader] == w0.model_events.cursors@[reader]);
            assert(w0.slots.len() == w0.slots@.len());
            // anything pending for a slot that was live on entry was
            // already pending on entry: the miner's appended insertions
            // name only freshly spawned (previously dead) slots
            assert forall|i: int|
                0 <= i < w0.slots@.len() && w0.slots@[i].alive && !crate::model_sync::has_inserted(
                    pending_model_events(w0, reader),
                    i as usize,
                ) implies !crate::model_sync::has_inserted(ins, i as usize) by {
                if crate::model_sync::has_inserted(ins, i as usize) {
                    let k2 = choose|k2: int|
                        0 <= k2 < ins.len() && ins[k2] == crate::events::StoreEvent::Inserted(
                            i as usize,
                        );
                    assert(ins[k2] == w4.model_events.events@[c0 + k2]);
                    if c0 + k2 < w0.model_events.events@.len() {
                        assert(w4.model_events.events@[c0 + k2]
                            == w0.model_events.events@[c0 + k2]);
                        assert(pending_model_events(w0, reader)[k2]
                            == w0.model_events.events@[c0 + k2]);
                        assert(false);
                    } else {
                        // a miner-pass insertion names a slot dead on entry
                        assert(w1.slots@[i].alive);
                        assert(w2.model_events.events@[c0 + k2]
                            == w4.model_events.events@[c0 + k2]);
                        assert((w2.model_events.events@[c0 + k2])
                            matches crate::events::StoreEvent::Inserted(ii) && ii == i as usize);
                        assert(!w1.slots@[i].alive);
                        assert(false);
                    }
                }
            }
            // a live slot keeps its model and its post-physics position up
            // to the pre-flush world, unless an insertion was pending
            assert forall|i: int|
                0 <= i < w0.slots@.len() && (#[trigger] w0.slots@[i]).alive
                    && !crate::model_sync::has_inserted(
                    pending_model_events(w0, reader),
                    i as usize,
                ) implies {
                &&& w6.slots@[i].alive
                &&& w6.slots@[i].gen == w0.slots@[i].gen
                &&& w6.slots@[i].model == w0.slots@[i].model
                &&& (w0.slots@[i].transform is Some ==> w6.slots@[i].transform is Some
                    && w6.slots@[i].transform->Some_0.position
                    == w1.slots@[i].transform->Some_0.position)
            } by {
                // physics: the slot moves (model untouched) or stays
                assert(w1.slots@[i].alive && w1.slots@[i].gen == w0.slots@[i].gen
                    && w1.slots@[i].model == w0.slots@[i].model);
                assert(w0.slots@[i].transform is Some ==> w1.slots@[i].transform is Some);
                // miner: live slots keep model and position
                assert(w2.slots@[i].alive && w2.slots@[i].gen == w1.slots@[i].gen
                    && w2.slots@[i].model == w1.slots@[i].model);
                assert(w1.slots@[i].transform is Some ==> w2.slots@[i].transform is Some
                    && w2.slots@[i].transform->Some_0.position
                    == w1.slots@[i].transform->Some_0.position);
                // laser and cooler: the slot frame is kept
                assert(crate::block::slot_frame(w2.slots@[i], w3.slots@[i]));
                assert(crate::block::slot_frame(w3.slots@[i], w4.slots@[i]));
                // model-sync: nothing was pending for this live slot, so it
                // is not re-created
                assert(w5.slots@[i] == crate::model_sync::slot_after_creates(
                    w4.slots@,
                    ins,
                    base,
                    i,
                ));
                assert(!crate::model_sync::has_inserted(ins, i as usize));
                assert(!crate::model_sync::creates_at(w4.slots@, ins, i));
                assert(w5.slots@[i] == w4.slots@[i]);
                // spawner: live slots are untouched
                assert(w6.slots@[i] == w5.slots@[i]);
            }
            // P1: trace the integrated position to the flushed world
            assert forall|i: int|
                0 <= i < w0.slots@.len() && crate::physics::moves(#[trigger] w0.slots@[i])
                    && self.world.slots@[i].alive implies self.world.slots@[i].transform is Some
                && self.world.slots@[i].transform->Some_0.position == crate::physics::integrated(
                w0.slots@[i].transform->Some_0,
                w0.slots@[i].body->Some_0.velocity,
                FIXED_DT as int,
            ).position by {
                assert(w1.slots@[i].alive && w1.slots@[i].transform is Some);
                assert(w1.slots@[i].transform->Some_0.position == crate::physics::integrated(
                    w0.slots@[i].transform->Some_0,
                    w0.slots@[i].body->Some_0.velocity,
                    FIXED_DT as int,
                ).position);
                assert(w2.slots@[i].alive && w2.slots@[i].transform is Some
                    && w2.slots@[i].transform->Some_0.position
                    == w1.slots@[i].transform->Some_0.position);
                assert(crate::block::slot_frame(w2.slots@[i], w3.slots@[i]));
                assert(crate::block::slot_frame(w3.slots@[i], w4.slots@[i]));
                assert(w5.slots@[i] == crate::model_sync::slot_after_creates(
                    w4.slots@,
                    ins,
                    base,
                    i,
                ));
                assert(w5.slots@[i].transform == w4.slots@[i].transform && w5.slots@[i].alive);
                assert(w6.slots@[i] == w5.slots@[i]);
                // the flush left this slot alive, so it was untouched
                if crate::world::marked_idx(w6, i) {
                    let j2 = choose|j2: int|
                        0 <= j2 < w6.utils.to_be_removed@.len() && (
                        #[trigger] w6.utils.to_be_removed@[j2]).idx == i && w6.spec_alive(
                            w6.utils.to_be_removed@[j2],
                        );
                    assert(!self.world.slots@[i].alive);
                    assert(false);
                }
                assert(self.world.slots@[i] == w6.slots@[i]);
            }
            // flush corollary: the marked entity's handle is released and
            // the entity deleted
            let q0 = w0.utils.to_be_removed@;
            assert forall|j: int|
                0 <= j < q0.len() && w0.spec_alive(#[trigger] q0[j])
                    && w0.slots@[q0[j].idx as int].model is Some
                    && w0.slots@[q0[j].idx as int].model->Some_0.model_id is Some
                    && !crate::model_sync::has_inserted(
                    pending_model_events(w0, reader),
                    q0[j].idx,
                ) implies self.world.renderer.calls@.contains(
                crate::render::RenderCall::Remove {
                    mesh_id: w0.slots@[q0[j].idx as int].model->Some_0.mesh_id,
                    handle: w0.slots@[q0[j].idx as int].model->Some_0.model_id->Some_0,
                },
            ) && !self.world.spec_alive(q0[j]) by {
                let e = q0[j];
                assert(e.idx as int == q0[j].idx as int);
                // the queue only grows before the flush
                assert(w4.utils.to_be_removed@ == q0);
                assert(w5.utils.to_be_removed@ == q0);
                assert(w6.utils.to_be_removed@.contains(e));
                // the slot keeps its liveness and its model to the flush
                assert(w6.slots@[e.idx as int].alive && w6.slots@[e.idx as int].gen == e.gen
                    && w6.slots@[e.idx as int].model == w0.slots@[e.idx as int].model);
                let j6 = choose|j6: int|
                    0 <= j6 < w6.utils.to_be_removed@.len() && w6.utils.to_be_removed@[j6] == e;
                assert(w6.spec_alive(w6.utils.to_be_removed@[j6]));
                assert(!self.world.spec_alive(e));
                crate::world::lemma_flush_calls_contains(w6.slots@, w6.utils.to_be_removed@, j6);
                let call = crate::render::RenderCall::Remove {
                    mesh_id: w0.slots@[e.idx as int].model->Some_0.mesh_id,
                    handle: w0.slots@[e.idx as int].model->Some_0.model_id->Some_0,
                };
                let fc = crate::world::flush_calls(w6.slots@, w6.utils.to_be_removed@);
                assert(fc.contains(call));
                let p2 = choose|p2: int| 0 <= p2 < fc.len() && fc[p2] == call;
                assert(self.world.renderer.calls@[w6.renderer.calls@.len() + p2] == call);
            }
        }
    }

    /// Flush the deferred-removal queue now: for each marked entity, in
    /// mark order, its render handle (if any) is released and only then
    /// is it deleted — exactly one release and one deletion per marked
    /// entity; unmarked entities are untouched, and the queue is empty
    /// afterwards.
    pub fn maintain(&mut self)
        requires
            old(self).wf(),
        ensures
            final(self).wf(),
            final(self).world.utils.to_be_removed@.len() == 0,
            final(self).world.slots@.len() == old(self).world.slots@.len(),
            // every live marked entity is deleted: its slot is emptied
            forall|j: int|
                0 <= j < old(self).world.utils.to_be_removed@.len() && old(
                    self,
                ).world.spec_alive(#[trigger] old(self).world.utils.to_be_removed@[j])
                    ==> final(self).world.slots@[old(
                    self,
                ).world.utils.to_be_removed@[j].idx as int] == crate::world::slot_cleared(
                    old(self).world.slots@[old(
                        self,
                    ).world.utils.to_be_removed@[j].idx as int],
                ) && !final(self).world.spec_alive(old(self).world.utils.to_be_removed@[j]),
            // unmarked slots are untouched, so unmarked entities stay live
            forall|i: int|
                0 <= i < old(self).world.slots@.len() && !crate::world::marked_idx(
                    old(self).world,
                    i,
                ) ==> final(self).world.slots@[i] == old(self).world.slots@[i],
            forall|e: crate::world::Entity|
                old(self).world.spec_alive(e) && !old(
                    self,
                ).world.utils.to_be_removed@.contains(e) ==> final(self).world.spec_alive(e),
            // exactly the releases of the marked entities' handles, in
            // mark order, before anything else happens to the slots
            final(self).world.renderer.calls@ == old(self).world.renderer.calls@
                + crate::world::flush_calls(
                old(self).world.slots@,
                old(self).world.utils.to_be_removed@,
            ),
            final(self).world.transform_events.cursors@ == old(
                self,
            ).world.transform_events.cursors@,
            final(self).world.model_events.cursors@ == old(self).world.model_events.cursors@,
            final(self).blocks == old(self).blocks,
            final(self).meshes == old(self).meshes,
            final(self).dispatcher == old(self).dispatcher,
            final(self).sync == old(self).sync,
    {
        self.world.maintain();
    }

    /// Mark an entity to be destroyed at the end of the tick. This is
    /// the only sanctioned way to destroy an entity: the flush releases
    /// its render handle before the deletion.
    pub fn mark_for_removal(&mut self, entity: Entity)
        requires
            old(self).wf(),
        ensures
            final(self).wf(),
            final(self).world.utils.to_be_removed@ == crate::world::marked(
                old(self).world.utils.to_be_removed@,
                entity,
            ),
            final(self).world.slots == old(self).world.slots,
            final(self).blocks == old(self).blocks,
            final(self).meshes == old(self).meshes,
            final(self).dispatcher == old(self).dispatcher,
            final(self).sync == old(self).sync,
    {
        self.world.utils.mark_for_removal(entity);
    }
}

fn standard_order_exec() -> (r: Vec<SystemId>)
    ensures
        r@ == standard_order(),
{
    let mut v: Vec<SystemId> = Vec::new();
    v.push(SystemId::Physics);
    v.push(SystemId::Miner);
    v.push(SystemId::Laser);
    v.push(SystemId::Cooler);
    v.push(SystemId::ModelSync);
    v.push(SystemId::FieldSpawner);
    proof {
        assert(v@ =~= standard_order());
    }
    v
}

fn orders_match(a: &Vec<SystemId>, b: &Vec<SystemId>) -> (r: bool)
    ensures
        r ==> a@ == b@,
{
    if a.len() != b.len() {
        return false;
    }
    let n = a.len();
    let mut i: usize = 0;
    while i < n
        invariant
            i <= n == a@.len(),
            n == b@.len(),
            forall|m: int| 0 <= m < i ==> a@[m] == b@[m],
        decreases n - i,
    {
        if !(a[i] == b[i]) {
            return false;
        }
        i += 1;
    }
    proof {
        assert(a@ =~= b@);
    }
    true
}

} // verus!
