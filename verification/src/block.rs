//! Blocks and gadget state machines. A block is a static description in
//! the block registry; a gadget block attached to a ship is an entity
//! carrying its own small per-kind component plus a back-reference to
//! the owning ship. Each gadget system advances its kind's state machine
//! once per tick; the three systems are independent of one another but
//! run after physics.

use vstd::prelude::*;
use crate::events::StoreEvent;
use crate::components::{
    Collider, ColliderShape, Cooler, GameItem, Hitbox, InputAction, InputManager, Line, Miner,
    MiningMissile, Model, Rotation,
    Transform,
};
use crate::math::Vec3;
use crate::render::ObjectMeshes;
use crate::sparse::SparseEntry;
use crate::world::{Entity, Slot, World};
use crate::{COORD_LIMIT, PI_MILLI};

verus! {

/// Ticks a mining turret charges before it can fire.
pub const MINER_TOTAL_TIME: u16 = 120;

/// Height above the turret at which a mining missile appears
/// (milli-units).
pub const MINER_SPAWN_OFFSET: i64 = 500;

/// Milli-heat a laser adds to its ship per tick of fire.
pub const LASER_HEAT: u64 = 300;

/// Hit points of damage a laser deals per tick of fire.
pub const LASER_DAMAGE: u32 = 1;

/// Milli-heat a cooler removes from its ship per tick.
pub const COOL_RATE: u64 = 130;

/// Height of the beam origin above the laser block (milli-units).
pub const LASER_Z_OFFSET: i64 = 400;

/// Radius by which the beam origin moves outward toward the target
/// (milli-units).
pub const LASER_RADIUS: i64 = 350;

/// One step of the mining-turret state machine: while charging the
/// counter climbs; once past the threshold the turret fires exactly when
/// commanded with a designated target, resetting the counter. Returns
/// the next state and whether it fired.
pub open spec fn miner_step(m: Miner, commanded: bool) -> (Miner, bool) {
    if m.shoot_time > MINER_TOTAL_TIME {
        if commanded {
            (Miner { shoot_time: 0 }, true)
        } else {
            (m, false)
        }
    } else {
        ((Miner { shoot_time: (m.shoot_time + 1) as u16 }), false)
    }
}

/// The mining input is asserted with a designated target.
pub open spec fn mining_commanded(input: InputManager) -> bool {
    input.action == InputAction::Mining && input.target is Some
}

/// One cooler's effect on a slot sequence: if slot `k` is a gadget whose
/// owning ship is live and carries a ship aggregate with heat above
/// zero, that heat drops by the cooling rate, floored at zero.
pub open spec fn apply_cool(slots: Seq<Slot>, k: usize) -> Seq<Slot> {
    if k < slots.len() && slots[k as int].gadget is Some {
        let ship_e = slots[k as int].gadget->Some_0.ship;
        if ship_e.idx < slots.len() && slots[ship_e.idx as int].alive && slots[ship_e.idx as int].gen
            == ship_e.gen && slots[ship_e.idx as int].ship is Some {
            let h = slots[ship_e.idx as int].ship->Some_0.heat;
            if h > 0 {
                let nh: u64 = if h < COOL_RATE {
                    0
                } else {
                    (h - COOL_RATE) as u64
                };
                slots.update(
                    ship_e.idx as int,
                    Slot {
                        ship: Some(crate::components::Ship { heat: nh }),
                        ..slots[ship_e.idx as int]
                    },
                )
            } else {
                slots
            }
        } else {
            slots
        }
    } else {
        slots
    }
}

/// The whole cooler pass: every cooler entry applied in store order.
pub open spec fn cooler_pass(slots: Seq<Slot>, coolers: Seq<SparseEntry<Cooler>>, j: int) -> Seq<
    Slot,
>
    decreases j,
{
    if j <= 0 {
        slots
    } else {
        apply_cool(cooler_pass(slots, coolers, j - 1), coolers[j - 1].key)
    }
}

proof fn lemma_cooler_pass_len(slots: Seq<Slot>, coolers: Seq<SparseEntry<Cooler>>, j: int)
    ensures
        cooler_pass(slots, coolers, j).len() == slots.len(),
    decreases j,
{
    if j > 0 {
        lemma_cooler_pass_len(slots, coolers, j - 1);
    }
}

/// The cooler system.
pub struct CoolerSystem;

impl CoolerSystem {
    /// One cooler tick: for every cooler gadget whose ship's heat is
    /// above zero, subtract the cooling rate, clamped at zero — heat
    /// never goes negative. Nothing but ship aggregates change.
    pub fn run(&self, w: &mut World)
        requires
            old(w).wf(),
        ensures
            final(w).wf(),
            final(w).slots@ == cooler_pass(
                old(w).slots@,
                old(w).coolers.entries@,
                old(w).coolers.entries@.len() as int,
            ),
            same_but_slots(*old(w), *final(w)),
    {
        let ghost s0 = old(w).slots@;
        let ghost entries = old(w).coolers.entries@;
        let n = w.coolers.len();
        let mut j: usize = 0;
        while j < n
            invariant
                w.wf(),
                old(w).wf(),
                j <= n == entries.len(),
                w.coolers.entries@ == entries,
                s0 == old(w).slots@,
                w.slots@ == cooler_pass(s0, entries, j as int),
                same_but_slots(*old(w), *w),
            decreases n - j,
        {
            proof {
                lemma_cooler_pass_len(s0, entries, j as int);
            }
            let k = w.coolers.key_at(j);
            proof {
                w.coolers.lemma_entry_get(j as int);
            }
            let s = w.slots[k];
            match s.gadget {
                Some(g) => {
                    let ship_opt = w.get_ship(g.ship);
                    match ship_opt {
                        Some(ship) => {
                            if ship.heat > 0 {
                                let nh: u64 = if ship.heat < COOL_RATE {
                                    0
                                } else {
                                    ship.heat - COOL_RATE
                                };
                                w.set_ship(g.ship, crate::components::Ship { heat: nh });
                            }
                        },
                        None => {},
                    }
                },
                None => {},
            }
            proof {
                assert(w.slots@ =~= cooler_pass(s0, entries, j + 1));
            }
            j += 1;
        }
    }
}

/// Where a turret's missile appears: directly above the turret, capped
/// at the coordinate bound.
pub open spec fn missile_spawn_pos(p: Vec3) -> Vec3 {
    Vec3 {
        x: p.x,
        y: p.y,
        z: if p.z + MINER_SPAWN_OFFSET > COORD_LIMIT {
            COORD_LIMIT
        } else {
            (p.z + MINER_SPAWN_OFFSET) as i64
        },
    }
}

/// Slot `k` of `w` holds a live mining missile aimed at `target`,
/// standing at the spawn position above a turret at `p`, on a slot that
/// carries no turret of its own.
pub open spec fn missile_witness(w: World, k: usize, p: Vec3, target: Entity) -> bool {
    &&& k < w.slots@.len()
    &&& w.slots@[k as int].alive
    &&& w.miners.spec_get(k) is None
    &&& w.missiles.spec_get(k) == Some(MiningMissile { target })
    &&& w.slots@[k as int].transform == Some(
        Transform {
            position: missile_spawn_pos(p),
            rotation: Rotation::Yaw(0),
            scale: Vec3 { x: 1000, y: 1000, z: 1000 },
        },
    )
}

/// Some live mining missile of `w` is aimed at `target` from above a
/// turret at `p`.
pub open spec fn missile_spawned_at(w: World, p: Vec3, target: Entity) -> bool {
    exists|k: usize| #[trigger] missile_witness(w, k, p, target)
}

/// The slot of a turret after it has faced the mining direction: the
/// yaw turns, position and everything else stay.
pub open spec fn faced_mining(s: Slot) -> Slot {
    Slot {
        transform: Some(
            Transform {
                position: s.transform->Some_0.position,
                rotation: Rotation::Yaw(PI_MILLI),
                scale: s.transform->Some_0.scale,
            },
        ),
        ..s
    }
}

/// The mining-turret system.
pub struct MinerSystem;

impl MinerSystem {
    /// One turret tick. Every turret that owns a transform turns to the
    /// fixed mining direction (position untouched) and advances its
    /// state machine by one step; a turret that fires leaves a mining
    /// missile above itself aimed at the commanded target. A turret
    /// never fires without an active target, and nothing else about
    /// live entities changes.
    #[verifier::rlimit(60)]
    pub fn run(&self, w: &mut World, input: &InputManager, meshes: &ObjectMeshes)
        requires
            old(w).wf(),
        ensures
            final(w).wf(),
            // each turret's state machine advances exactly one step
            forall|k: usize|
                #[trigger] final(w).miners.spec_get(k) == match old(w).miners.spec_get(k) {
                    Some(m) => if k < old(w).slots@.len() && old(
                        w,
                    ).slots@[k as int].transform is Some {
                        Some(miner_step(m, mining_commanded(*input)).0)
                    } else {
                        Some(m)
                    },
                    None => None::<Miner>,
                },
            // every turret owning a transform now faces the mining
            // direction; one without a transform is untouched
            forall|p: int|
                0 <= p < old(w).miners.entries@.len() && (#[trigger] old(
                    w,
                ).miners.entries@[p]).key < old(w).slots@.len() && old(w).slots@[old(
                    w,
                ).miners.entries@[p].key as int].transform is Some ==> final(w).slots@[old(
                    w,
                ).miners.entries@[p].key as int] == faced_mining(
                    old(w).slots@[old(w).miners.entries@[p].key as int],
                ),
            forall|p: int|
                0 <= p < old(w).miners.entries@.len() && (#[trigger] old(
                    w,
                ).miners.entries@[p]).key < old(w).slots@.len() && old(w).slots@[old(
                    w,
                ).miners.entries@[p].key as int].transform is None ==> final(w).slots@[old(
                    w,
                ).miners.entries@[p].key as int] == old(w).slots@[old(
                    w,
                ).miners.entries@[p].key as int],
            // a commanded, charged turret's fire leaves a missile aimed
            // at the target, above the turret
            forall|p: int|
                0 <= p < old(w).miners.entries@.len() && (#[trigger] old(
                    w,
                ).miners.entries@[p]).key < old(w).slots@.len() && old(w).slots@[old(
                    w,
                ).miners.entries@[p].key as int].transform is Some && miner_step(
                    old(w).miners.entries@[p].val,
                    mining_commanded(*input),
                ).1 ==> missile_spawned_at(
                    *final(w),
                    old(w).slots@[old(w).miners.entries@[p].key as int].transform->Some_0.position,
                    input.target->Some_0,
                ),
            // a missile exists afterwards only if it existed before or the
            // mining input was asserted with a target it now aims at
            forall|k: usize|
                #[trigger] final(w).missiles.spec_get(k) == old(w).missiles.spec_get(k) || (
                mining_commanded(*input) && final(w).missiles.spec_get(k) == Some(
                    MiningMissile { target: input.target->Some_0 },
                )),
            old(w).slots@.len() <= final(w).slots@.len(),
            forall|e: Entity| old(w).spec_alive(e) ==> final(w).spec_alive(e),
            forall|i: int|
                0 <= i < old(w).slots@.len() && old(w).slots@[i].alive && old(
                    w,
                ).miners.spec_get(i as usize) is None ==> final(w).slots@[i] == old(w).slots@[i],
            // slot-wise: every live slot keeps its liveness, generation,
            // model, body and collider; a transform keeps its presence,
            // position and scale (only a turret's rotation turns)
            forall|i: int|
                0 <= i < old(w).slots@.len() && (#[trigger] old(w).slots@[i]).alive ==> {
                    &&& final(w).slots@[i].alive
                    &&& final(w).slots@[i].gen == old(w).slots@[i].gen
                    &&& final(w).slots@[i].model == old(w).slots@[i].model
                    &&& final(w).slots@[i].body == old(w).slots@[i].body
                    &&& final(w).slots@[i].collider == old(w).slots@[i].collider
                    &&& (old(w).slots@[i].transform is Some ==> final(w).slots@[i].transform
                        is Some && final(w).slots@[i].transform->Some_0.position == old(
                        w,
                    ).slots@[i].transform->Some_0.position
                        && final(w).slots@[i].transform->Some_0.scale == old(
                        w,
                    ).slots@[i].transform->Some_0.scale)
                    &&& (old(w).slots@[i].transform is None ==> final(w).slots@[i].transform
                        is None)
                },
            final(w).lasers == old(w).lasers,
            final(w).coolers == old(w).coolers,
            final(w).asteroids == old(w).asteroids,
            final(w).fields == old(w).fields,
            final(w).utils == old(w).utils,
            final(w).renderer == old(w).renderer,
            final(w).transform_events.cursors@ == old(w).transform_events.cursors@,
            final(w).model_events.cursors@ == old(w).model_events.cursors@,
            // model-change events are only appended, and only for the
            // freshly spawned missiles (slots that were not live before)
            old(w).model_events.events@.len() <= final(w).model_events.events@.len(),
            forall|q2: int|
                0 <= q2 < old(w).model_events.events@.len()
                    ==> #[trigger] final(w).model_events.events@[q2]
                        == old(w).model_events.events@[q2],
            forall|q2: int|
                old(w).model_events.events@.len() <= q2 < final(w).model_events.events@.len()
                    ==> ((#[trigger] final(w).model_events.events@[q2])
                        matches StoreEvent::Inserted(ii) && (ii < old(w).slots@.len()
                        ==> !old(w).slots@[ii as int].alive)),
    {
        let ghost entries0 = old(w).miners.entries@;
        let commanded = match (input.action, input.target) {
            (InputAction::Mining, Some(_)) => true,
            _ => false,
        };
        proof {
            assert(commanded == mining_commanded(*input));
            // every turret entry names a live slot of the original world
            assert forall|p: int|
                0 <= p < entries0.len() implies (#[trigger] entries0[p]).key < old(
                w,
            ).slots@.len() && old(w).slots@[entries0[p].key as int].alive by {
                old(w).miners.lemma_entry_get(p);
            }
        }
        let n = w.miners.len();
        let mut j: usize = 0;
        while j < n
            invariant
                w.wf(),
                old(w).wf(),
                commanded == mining_commanded(*input),
                entries0 == old(w).miners.entries@,
                j <= n == entries0.len(),
                w.miners.entries@.len() == n,
                forall|p: int|
                    0 <= p < entries0.len() ==> (#[trigger] entries0[p]).key < old(
                        w,
                    ).slots@.len() && old(w).slots@[entries0[p].key as int].alive,
                forall|p: int|
                    0 <= p < n ==> (#[trigger] w.miners.entries@[p]).key == entries0[p].key,
                forall|p: int|
                    j <= p < n ==> (#[trigger] w.miners.entries@[p]).val == entries0[p].val,
                forall|p: int|
                    0 <= p < j ==> (#[trigger] w.miners.entries@[p]).val == (if old(w).slots@[entries0[p].key as int].transform is Some {
                        miner_step(entries0[p].val, mining_commanded(*input)).0
                    } else {
                        entries0[p].val
                    }),
                // processed turret slots are exactly re-oriented (or, with
                // no transform, untouched); unprocessed ones are untouched
                forall|p: int|
                    0 <= p < j && old(w).slots@[(#[trigger] entries0[p]).key as int].transform
                        is Some ==> w.slots@[entries0[p].key as int] == faced_mining(
                        old(w).slots@[entries0[p].key as int],
                    ),
                forall|p: int|
                    0 <= p < j && old(w).slots@[(#[trigger] entries0[p]).key as int].transform
                        is None ==> w.slots@[entries0[p].key as int] == old(
                        w,
                    ).slots@[entries0[p].key as int],
                forall|p: int|
                    j <= p < n ==> w.slots@[(#[trigger] entries0[p]).key as int] == old(
                        w,
                    ).slots@[entries0[p].key as int],
                forall|p: int|
                    0 <= p < j && old(w).slots@[(#[trigger] entries0[p]).key as int].transform
                        is Some && miner_step(entries0[p].val, mining_commanded(*input)).1
                        ==> missile_spawned_at(
                        *w,
                        old(w).slots@[entries0[p].key as int].transform->Some_0.position,
                        input.target->Some_0,
                    ),
                old(w).slots@.len() <= w.slots@.len(),
                forall|e: Entity| old(w).spec_alive(e) ==> w.spec_alive(e),
                forall|i: int|
                    0 <= i < old(w).slots@.len() && old(w).slots@[i].alive && old(
                        w,
                    ).miners.spec_get(i as usize) is None ==> w.slots@[i] == old(w).slots@[i],
                forall|k: usize|
                    #[trigger] w.missiles.spec_get(k) == old(w).missiles.spec_get(k) || (
                    mining_commanded(*input) && w.missiles.spec_get(k) == Some(
                        MiningMissile { target: input.target->Some_0 },
                    )),
                w.lasers == old(w).lasers,
                w.coolers == old(w).coolers,
                w.asteroids == old(w).asteroids,
                w.fields == old(w).fields,
                w.utils == old(w).utils,
                w.renderer == old(w).renderer,
                w.transform_events.cursors@ == old(w).transform_events.cursors@,
                w.model_events.cursors@ == old(w).model_events.cursors@,
                old(w).model_events.events@.len() <= w.model_events.events@.len(),
                forall|q2: int|
                    0 <= q2 < old(w).model_events.events@.len() ==> #[trigger] w.model_events.events@[q2]
                        == old(w).model_events.events@[q2],
                forall|q2: int|
                    old(w).model_events.events@.len() <= q2 < w.model_events.events@.len() ==> ((
                    #[trigger] w.model_events.events@[q2]) matches StoreEvent::Inserted(ii) && (ii
                        < old(w).slots@.len() ==> !old(w).slots@[ii as int].alive)),
            decreases n - j,
        {
            let ghost wj = *w;
            let k = w.miners.key_at(j);
            let m = *w.miners.val_at(j);
            proof {
                w.miners.lemma_entry_get(j as int);
                old(w).miners.lemma_entry_get(j as int);
                assert(w.miners.spec_get(k) is Some);
                // distinct keys: this turret is no other entry's slot
                assert forall|p: int| 0 <= p < n && p != j implies (#[trigger] entries0[p]).key
                    != k by {}
            }
            let s = w.slots[k];
            let e = Entity { idx: k, gen: s.gen };
            match s.transform {
                Some(t) => {
                    // face the fixed mining direction
                    let nt = Transform {
                        position: t.position,
                        rotation: Rotation::Yaw(PI_MILLI),
                        scale: t.scale,
                    };
                    w.set_transform(e, nt);
                    if m.shoot_time > MINER_TOTAL_TIME {
                        if commanded {
                            let target = match input.target {
                                Some(tg) => tg,
                                None => e,
                            };
                            let nz: i64 = if t.position.z + MINER_SPAWN_OFFSET > COORD_LIMIT {
                                COORD_LIMIT
                            } else {
                                t.position.z + MINER_SPAWN_OFFSET
                            };
                            let position = Vec3 { x: t.position.x, y: t.position.y, z: nz };
                            let ghost wa = *w;
                            let missile = w.create_entity();
                            proof {
                                // the recycled or fresh slot was not a live
                                // entity of the original world either
                                if missile.idx < old(w).slots@.len() && old(
                                    w,
                                ).slots@[missile.idx as int].alive {
                                    let eo = Entity {
                                        idx: missile.idx,
                                        gen: old(w).slots@[missile.idx as int].gen,
                                    };
                                    assert(old(w).spec_alive(eo));
                                    assert(wa.spec_alive(eo));
                                    assert(false);
                                }
                            }
                            let ghost wb = *w;
                            w.insert_transform(
                                missile,
                                Transform {
                                    position,
                                    rotation: Rotation::Yaw(0),
                                    scale: Vec3 { x: 1000, y: 1000, z: 1000 },
                                },
                            );
                            let ghost wc = *w;
                            w.insert_model(missile, Model::new(meshes.missile));
                            let ghost wd = *w;
                            w.insert_missile(missile, MiningMissile { target });
                            w.miners.set_at(j, Miner { shoot_time: 0 });
                            proof {
                                assert forall|e2: Entity| old(w).spec_alive(e2) implies w.spec_alive(
                                    e2,
                                ) by {
                                    assert(wa.spec_alive(e2));
                                    assert(wb.spec_alive(e2));
                                    assert(wc.spec_alive(e2));
                                    assert(wd.spec_alive(e2));
                                }
                                // this turret's own fire is witnessed by the
                                // fresh missile
                                assert(w.miners.spec_get(missile.idx) is None);
                                assert(missile_witness(*w, missile.idx, t.position, target));
                                assert(missile_spawned_at(*w, t.position, target));
                                // earlier fires keep their witnesses: the
                                // spawn touched only a previously dead slot
                                assert forall|p: int|
                                    0 <= p < j && old(w).slots@[(
                                    #[trigger] entries0[p]).key as int].transform is Some
                                        && miner_step(
                                        entries0[p].val,
                                        mining_commanded(*input),
                                    ).1 implies missile_spawned_at(
                                    *w,
                                    old(
                                        w,
                                    ).slots@[entries0[p].key as int].transform->Some_0.position,
                                    input.target->Some_0,
                                ) by {
                                    let pos = old(
                                        w,
                                    ).slots@[entries0[p].key as int].transform->Some_0.position;
                                    let kw = choose|kw: usize|
                                        #[trigger] missile_witness(
                                            wj,
                                            kw,
                                            pos,
                                            input.target->Some_0,
                                        );
                                    assert(missile_witness(*w, kw, pos, input.target->Some_0));
                                }
                            }
                        } else {
                            w.miners.set_at(j, m);
                            proof {
                                assert forall|p: int|
                                    0 <= p < j && old(w).slots@[(
                                    #[trigger] entries0[p]).key as int].transform is Some
                                        && miner_step(
                                        entries0[p].val,
                                        mining_commanded(*input),
                                    ).1 implies missile_spawned_at(
                                    *w,
                                    old(
                                        w,
                                    ).slots@[entries0[p].key as int].transform->Some_0.position,
                                    input.target->Some_0,
                                ) by {
                                    let pos = old(
                                        w,
                                    ).slots@[entries0[p].key as int].transform->Some_0.position;
                                    let kw = choose|kw: usize|
                                        #[trigger] missile_witness(
                                            wj,
                                            kw,
                                            pos,
                                            input.target->Some_0,
                                        );
                                    assert(missile_witness(*w, kw, pos, input.target->Some_0));
                                }
                            }
                        }
                    } else {
                        w.miners.set_at(j, Miner { shoot_time: m.shoot_time + 1 });
                        proof {
                            assert forall|p: int|
                                0 <= p < j && old(w).slots@[(
                                #[trigger] entries0[p]).key as int].transform is Some
                                    && miner_step(
                                    entries0[p].val,
                                    mining_commanded(*input),
                                ).1 implies missile_spawned_at(
                                *w,
                                old(w).slots@[entries0[p].key as int].transform->Some_0.position,
                                input.target->Some_0,
                            ) by {
                                let pos = old(
                                    w,
                                ).slots@[entries0[p].key as int].transform->Some_0.position;
                                let kw = choose|kw: usize|
                                    #[trigger] missile_witness(wj, kw, pos, input.target->Some_0);
                                assert(missile_witness(*w, kw, pos, input.target->Some_0));
                            }
                        }
                    }
                },
                None => {},
            }
            j += 1;
        }
        proof {
            assert forall|i: int|
                0 <= i < old(w).slots@.len() && (#[trigger] old(w).slots@[i]).alive implies {
                &&& w.slots@[i].alive
                &&& w.slots@[i].gen == old(w).slots@[i].gen
                &&& w.slots@[i].model == old(w).slots@[i].model
                &&& w.slots@[i].body == old(w).slots@[i].body
                &&& w.slots@[i].collider == old(w).slots@[i].collider
                &&& (old(w).slots@[i].transform is Some ==> w.slots@[i].transform is Some
                    && w.slots@[i].transform->Some_0.position == old(
                    w,
                ).slots@[i].transform->Some_0.position && w.slots@[i].transform->Some_0.scale
                    == old(w).slots@[i].transform->Some_0.scale)
                &&& (old(w).slots@[i].transform is None ==> w.slots@[i].transform is None)
            } by {
                if old(w).miners.spec_get(i as usize) is Some {
                    crate::sparse::lemma_sparse_get_index(old(w).miners.entries@, i as usize);
                    let p = choose|p: int|
                        0 <= p < old(w).miners.entries@.len() && (#[trigger] old(
                            w,
                        ).miners.entries@[p]).key == i as usize;
                    assert((#[trigger] entries0[p]).key == i as usize);
                    // the index fits in usize: the slot vector's length does
                    assert(old(w).slots.len() == old(w).slots@.len());
                    assert(entries0[p].key as int == i);
                    if old(w).slots@[i].transform is Some {
                        assert(w.slots@[entries0[p].key as int] == faced_mining(
                            old(w).slots@[entries0[p].key as int],
                        ));
                        assert(w.slots@[i] == faced_mining(old(w).slots@[i]));
                    } else {
                        assert(w.slots@[entries0[p].key as int] == old(
                            w,
                        ).slots@[entries0[p].key as int]);
                        assert(w.slots@[i] == old(w).slots@[i]);
                    }
                } else {
                    assert(w.slots@[i] == old(w).slots@[i]);
                }
            }
            assert forall|k: usize|
                #[trigger] w.miners.spec_get(k) == match old(w).miners.spec_get(k) {
                    Some(m) => if k < old(w).slots@.len() && old(
                        w,
                    ).slots@[k as int].transform is Some {
                        Some(miner_step(m, mining_commanded(*input)).0)
                    } else {
                        Some(m)
                    },
                    None => None::<Miner>,
                } by {
                if w.miners.spec_get(k) is Some {
                    crate::sparse::lemma_sparse_get_index(w.miners.entries@, k);
                    let p = choose|p: int|
                        0 <= p < w.miners.entries@.len() && (#[trigger] w.miners.entries@[p]).key
                            == k;
                    w.miners.lemma_entry_get(p);
                    old(w).miners.lemma_entry_get(p);
                } else {
                    if old(w).miners.spec_get(k) is Some {
                        crate::sparse::lemma_sparse_get_index(old(w).miners.entries@, k);
                        let p = choose|p: int|
                            0 <= p < old(w).miners.entries@.len() && (#[trigger] old(
                                w,
                            ).miners.entries@[p]).key == k;
                        w.miners.lemma_entry_get(p);
                    }
                }
            }
        }
    }
}

/// The laser input is asserted with a designated target.
pub open spec fn laser_commanded(input: InputManager) -> bool {
    input.action == InputAction::Laser && input.target is Some
}

/// Whether the laser consults its raycast-hit gate. With the toggle
/// off, the raycast is still performed but every commanded shot counts
/// as a hit.
pub const LASER_RAYCAST_GATE: bool = false;

/// The beam origin: the laser's position raised by the beam height
/// (capped at the coordinate bound) and moved toward the target in the
/// horizontal plane by the turret radius.
pub open spec fn spec_beam_start(p: Vec3, tp: Vec3) -> Vec3 {
    let sz: int = if p.z + LASER_Z_OFFSET > COORD_LIMIT {
        COORD_LIMIT as int
    } else {
        p.z + LASER_Z_OFFSET
    };
    let ux: int = p.x - tp.x;
    let uy: int = p.y - tp.y;
    let ax: int = if ux < 0 {
        -ux
    } else {
        ux
    };
    let ay: int = if uy < 0 {
        -uy
    } else {
        uy
    };
    let len: int = crate::math::spec_isqrt(ax * ax + ay * ay);
    if len == 0 {
        Vec3 { x: p.x, y: p.y, z: sz as i64 }
    } else {
        let ox: int = if LASER_RADIUS * ax / len > LASER_RADIUS {
            LASER_RADIUS as int
        } else {
            LASER_RADIUS * ax / len
        };
        let oy: int = if LASER_RADIUS * ay / len > LASER_RADIUS {
            LASER_RADIUS as int
        } else {
            LASER_RADIUS * ay / len
        };
        Vec3 {
            x: if ux >= 0 {
                (p.x - ox) as i64
            } else {
                (p.x + ox) as i64
            },
            y: if uy >= 0 {
                (p.y - oy) as i64
            } else {
                (p.y + oy) as i64
            },
            z: sz as i64,
        }
    }
}

/// The slot sequence with laser `k`'s beam line detached, if it had one.
pub open spec fn line_removed(slots: Seq<Slot>, k: usize) -> Seq<Slot> {
    if k < slots.len() && slots[k as int].line is Some {
        slots.update(k as int, Slot { line: None, ..slots[k as int] })
    } else {
        slots
    }
}

/// One laser's effect on a slot sequence. Without an asserted laser
/// action and live, positioned target, the laser's beam line goes away.
/// Otherwise the laser turns toward the target, carries a beam line from
/// the beam origin to the target, adds the fixed heat to its owning
/// ship (saturating), and deals the fixed damage to the target's health
/// (saturating at the lowest representable value).
pub open spec fn apply_laser(slots: Seq<Slot>, k: usize, input: InputManager) -> Seq<Slot> {
    if k >= slots.len() {
        slots
    } else if !laser_commanded(input) {
        line_removed(slots, k)
    } else {
        let tgt = input.target->Some_0;
        if slots[k as int].transform is None {
            line_removed(slots, k)
        } else if !(tgt.idx < slots.len() && slots[tgt.idx as int].alive
            && slots[tgt.idx as int].gen == tgt.gen && slots[tgt.idx as int].transform is Some) {
            line_removed(slots, k)
        } else {
            let p = slots[k as int].transform->Some_0.position;
            let sc = slots[k as int].transform->Some_0.scale;
            let tp = slots[tgt.idx as int].transform->Some_0.position;
            let start = spec_beam_start(p, tp);
            let s1 = slots.update(
                k as int,
                Slot {
                    transform: Some(
                        Transform {
                            position: p,
                            rotation: Rotation::Facing {
                                dx: (tp.x - p.x) as i64,
                                dy: (tp.y - p.y) as i64,
                            },
                            scale: sc,
                        },
                    ),
                    ..slots[k as int]
                },
            );
            let s2 = s1.update(
                k as int,
                Slot {
                    line: Some(
                        Line { pt: start, pt2: tp, color: Vec3 { x: 1000, y: 0, z: 0 } },
                    ),
                    ..s1[k as int]
                },
            );
            let s3 = if s2[k as int].gadget is Some {
                let ship_e = s2[k as int].gadget->Some_0.ship;
                if ship_e.idx < s2.len() && s2[ship_e.idx as int].alive
                    && s2[ship_e.idx as int].gen == ship_e.gen
                    && s2[ship_e.idx as int].ship is Some {
                    let h = s2[ship_e.idx as int].ship->Some_0.heat;
                    let nh: u64 = if h + LASER_HEAT > u64::MAX {
                        u64::MAX
                    } else {
                        (h + LASER_HEAT) as u64
                    };
                    s2.update(
                        ship_e.idx as int,
                        Slot {
                            ship: Some(crate::components::Ship { heat: nh }),
                            ..s2[ship_e.idx as int]
                        },
                    )
                } else {
                    s2
                }
            } else {
                s2
            };
            if s3[tgt.idx as int].health is Some {
                let hh = s3[tgt.idx as int].health->Some_0.0;
                let nhh: i64 = if hh - LASER_DAMAGE >= i64::MIN {
                    (hh - LASER_DAMAGE) as i64
                } else {
                    i64::MIN
                };
                s3.update(
                    tgt.idx as int,
                    Slot {
                        health: Some(crate::components::Health(nhh)),
                        ..s3[tgt.idx as int]
                    },
                )
            } else {
                s3
            }
        }
    }
}

/// The whole laser pass: every laser entry applied in store order.
pub open spec fn laser_pass(
    slots: Seq<Slot>,
    lasers: Seq<SparseEntry<crate::components::Laser>>,
    input: InputManager,
    j: int,
) -> Seq<Slot>
    decreases j,
{
    if j <= 0 {
        slots
    } else {
        apply_laser(laser_pass(slots, lasers, input, j - 1), lasers[j - 1].key, input)
    }
}

proof fn lemma_laser_pass_len(
    slots: Seq<Slot>,
    lasers: Seq<SparseEntry<crate::components::Laser>>,
    input: InputManager,
    j: int,
)
    ensures
        laser_pass(slots, lasers, input, j).len() == slots.len(),
    decreases j,
{
    if j > 0 {
        lemma_laser_pass_len(slots, lasers, input, j - 1);
    }
}

/// The laser system.
pub struct LaserSystem;

impl LaserSystem {
    /// One laser tick: each laser entry applies its per-tick effect in
    /// store order (turn toward the target, carry the beam line, heat
    /// the owning ship, damage the target), or loses its beam line when
    /// the action is not asserted or its target check fails.
    #[verifier::rlimit(80)]
    pub fn run(&self, w: &mut World, input: &InputManager)
        requires
            old(w).wf(),
        ensures
            final(w).wf(),
            final(w).slots@ == laser_pass(
                old(w).slots@,
                old(w).lasers.entries@,
                *input,
                old(w).lasers.entries@.len() as int,
            ),
            final(w).free == old(w).free,
            crate::world::same_sparse(*old(w), *final(w)),
            final(w).utils == old(w).utils,
            final(w).renderer == old(w).renderer,
            final(w).model_events == old(w).model_events,
            final(w).transform_events.cursors@ == old(w).transform_events.cursors@,
            old(w).transform_events.events@.is_prefix_of(final(w).transform_events.events@),
    {
        let ghost s0 = old(w).slots@;
        let ghost entries = old(w).lasers.entries@;
        let lasing = match (input.action, input.target) {
            (InputAction::Laser, Some(_)) => true,
            _ => false,
        };
        proof {
            assert(lasing == laser_commanded(*input));
        }
        let n = w.lasers.len();
        let mut j: usize = 0;
        while j < n
            invariant
                w.wf(),
                old(w).wf(),
                lasing == laser_commanded(*input),
                j <= n == entries.len(),
                w.lasers.entries@ == entries,
                entries == old(w).lasers.entries@,
                s0 == old(w).slots@,
                w.slots@ == laser_pass(s0, entries, *input, j as int),
                w.free == old(w).free,
                crate::world::same_sparse(*old(w), *w),
                w.utils == old(w).utils,
                w.renderer == old(w).renderer,
                w.model_events == old(w).model_events,
                w.transform_events.cursors@ == old(w).transform_events.cursors@,
                old(w).transform_events.events@.is_prefix_of(w.transform_events.events@),
            decreases n - j,
        {
            proof {
                lemma_laser_pass_len(s0, entries, *input, j as int);
            }
            let k = w.lasers.key_at(j);
            proof {
                w.lasers.lemma_entry_get(j as int);
            }
            let s = w.slots[k];
            let e = Entity { idx: k, gen: s.gen };
            if lasing {
                let tgt = match input.target {
                    Some(t) => t,
                    None => e,
                };
                match s.transform {
                    Some(t) => {
                        let ttf = w.get_transform(tgt);
                        match ttf {
                            Some(tt) => {
                                let p = t.position;
                                let tp = tt.position;
                                let sz: i64 = if p.z + LASER_Z_OFFSET > COORD_LIMIT {
                                    COORD_LIMIT
                                } else {
                                    p.z + LASER_Z_OFFSET
                                };
                                let ux: i64 = p.x - tp.x;
                                let uy: i64 = p.y - tp.y;
                                let ax: u64 = (if ux < 0 {
                                    -ux
                                } else {
                                    ux
                                }) as u64;
                                let ay: u64 = (if uy < 0 {
                                    -uy
                                } else {
                                    uy
                                }) as u64;
                                proof {
                                    assert({
                                        &&& ax * ax <= 0x1000000000000000
                                        &&& ay * ay <= 0x1000000000000000
                                        &&& 350 * ax <= 0x1000000000000000
                                        &&& 350 * ay <= 0x1000000000000000
                                    }) by (nonlinear_arith)
                                        requires
                                            0 <= ax <= 0x40000000,
                                            0 <= ay <= 0x40000000,
                                    ;
                                }
                                let len: u64 = crate::math::isqrt(ax * ax + ay * ay);
                                let start = if len == 0 {
                                    Vec3 { x: p.x, y: p.y, z: sz }
                                } else {
                                    let oxq: u64 = LASER_RADIUS as u64 * ax / len;
                                    let oyq: u64 = LASER_RADIUS as u64 * ay / len;
                                    let ox: i64 = if oxq > LASER_RADIUS as u64 {
                                        LASER_RADIUS
                                    } else {
                                        oxq as i64
                                    };
                                    let oy: i64 = if oyq > LASER_RADIUS as u64 {
                                        LASER_RADIUS
                                    } else {
                                        oyq as i64
                                    };
                                    Vec3 {
                                        x: if ux >= 0 {
                                            p.x - ox
                                        } else {
                                            p.x + ox
                                        },
                                        y: if uy >= 0 {
                                            p.y - oy
                                        } else {
                                            p.y + oy
                                        },
                                        z: sz,
                                    }
                                };
                                proof {
                                    assert(start == spec_beam_start(p, tp));
                                }
                                // the designed hit gate: the raycast is made
                                // as designed, then bypassed by the toggle
                                let cats: Vec<u32> = Vec::new();
                                let rc = w.raycast(&cats, start, tp);
                                let hit = if LASER_RAYCAST_GATE {
                                    match rc {
                                        Some(h) => h == tgt,
                                        None => false,
                                    }
                                } else {
                                    true
                                };
                                if hit {
                                    w.set_transform(
                                        e,
                                        Transform {
                                            position: p,
                                            rotation: Rotation::Facing {
                                                dx: tp.x - p.x,
                                                dy: tp.y - p.y,
                                            },
                                            scale: t.scale,
                                        },
                                    );
                                    w.insert_line(
                                        e,
                                        crate::components::Line {
                                            pt: start,
                                            pt2: tp,
                                            color: Vec3 { x: 1000, y: 0, z: 0 },
                                        },
                                    );
                                    let g = w.get_gadget(e);
                                    match g {
                                        Some(gg) => {
                                            match w.get_ship(gg.ship) {
                                                Some(sh) => {
                                                    let nh: u64 = if sh.heat > u64::MAX
                                                        - LASER_HEAT {
                                                        u64::MAX
                                                    } else {
                                                        sh.heat + LASER_HEAT
                                                    };
                                                    w.set_ship(
                                                        gg.ship,
                                                        crate::components::Ship { heat: nh },
                                                    );
                                                },
                                                None => {},
                                            }
                                        },
                                        None => {},
                                    }
                                    w.damage(tgt, LASER_DAMAGE);
                                } else {
                                    w.remove_line(e);
                                }
                            },
                            None => {
                                w.remove_line(e);
                            },
                        }
                    },
                    None => {
                        w.remove_line(e);
                    },
                }
            } else {
                w.remove_line(e);
            }
            proof {
                assert(w.slots@ =~= laser_pass(s0, entries, *input, j + 1));
            }
            j += 1;
        }
    }
}

/// What the gadget passes never touch of a slot: liveness, generation,
/// model, body and collider are kept, and a transform keeps its
/// presence, position and scale (only its rotation may turn).
pub open spec fn slot_frame(a: Slot, b: Slot) -> bool {
    &&& b.alive == a.alive
    &&& b.gen == a.gen
    &&& b.model == a.model
    &&& b.body == a.body
    &&& b.collider == a.collider
    &&& (b.transform is Some <==> a.transform is Some)
    &&& (a.transform is Some ==> b.transform->Some_0.position == a.transform->Some_0.position
        && b.transform->Some_0.scale == a.transform->Some_0.scale)
}

/// One laser application respects the slot frame everywhere.
proof fn lemma_apply_laser_frame(slots: Seq<Slot>, k: usize, input: InputManager)
    ensures
        apply_laser(slots, k, input).len() == slots.len(),
        forall|i: int|
            0 <= i < slots.len() ==> slot_frame(slots[i], #[trigger] apply_laser(slots, k, input)[i]),
{
}

/// The whole laser pass respects the slot frame everywhere.
pub proof fn lemma_laser_pass_frame(
    slots: Seq<Slot>,
    lasers: Seq<SparseEntry<crate::components::Laser>>,
    input: InputManager,
    j: int,
)
    ensures
        laser_pass(slots, lasers, input, j).len() == slots.len(),
        forall|i: int|
            0 <= i < slots.len() ==> slot_frame(
                slots[i],
                #[trigger] laser_pass(slots, lasers, input, j)[i],
            ),
    decreases j,
{
    if j > 0 {
        lemma_laser_pass_frame(slots, lasers, input, j - 1);
        lemma_apply_laser_frame(laser_pass(slots, lasers, input, j - 1), lasers[j - 1].key, input);
    }
}

/// One cooler application respects the slot frame everywhere.
proof fn lemma_apply_cool_frame(slots: Seq<Slot>, k: usize)
    ensures
        apply_cool(slots, k).len() == slots.len(),
        forall|i: int| 0 <= i < slots.len() ==> slot_frame(slots[i], #[trigger] apply_cool(slots, k)[i]),
{
}

/// The whole cooler pass respects the slot frame everywhere.
pub proof fn lemma_cooler_pass_frame(slots: Seq<Slot>, coolers: Seq<SparseEntry<Cooler>>, j: int)
    ensures
        cooler_pass(slots, coolers, j).len() == slots.len(),
        forall|i: int|
            0 <= i < slots.len() ==> slot_frame(
                slots[i],
                #[trigger] cooler_pass(slots, coolers, j)[i],
            ),
    decreases j,
{
    if j > 0 {
        lemma_cooler_pass_frame(slots, coolers, j - 1);
        lemma_apply_cool_frame(cooler_pass(slots, coolers, j - 1), coolers[j - 1].key);
    }
}

/// Everything but the slots equal between two worlds (the cooler pass
/// touches nothing else).
pub open spec fn same_but_slots(a: World, b: World) -> bool {
    &&& a.free == b.free
    &&& crate::world::same_sparse(a, b)
    &&& crate::world::same_events(a, b)
    &&& a.utils == b.utils
    &&& a.renderer == b.renderer
}

/// Index of a block description in the registry.
pub type BlockId = usize;

/// Which gadget component attaching a block of this kind installs.
#[derive(Clone, Copy, Debug, PartialEq, Eq, Structural)]
pub enum GadgetKind {
    Miner,
    Laser,
    Cooler,
}

/// A quantity of one item, as a construction cost.
#[derive(Clone, Copy, Debug, PartialEq, Eq, Structural)]
pub struct ItemStack {
    pub item: GameItem,
    pub count: u32,
}

/// Static description of one block kind: its mesh, its footprint in
/// grid spaces, its height (milli-units), its hitbox template, the
/// gadget it installs when attached (if any), and its cost.
pub struct Block {
    pub id: BlockId,
    pub kind_name: &'static str,
    pub mesh_id: u64,
    pub size: (u16, u16),
    pub height: i64,
    pub hitbox: Hitbox,
    pub setup: Option<GadgetKind>,
    pub is_gadget: bool,
    pub cost: Vec<ItemStack>,
}

/// The block registry, with the identifier of each well-known kind.
pub struct Blocks {
    pub blocks: Vec<Block>,
    pub wall: BlockId,
    pub engine: BlockId,
    pub cube: BlockId,
    pub miner: BlockId,
    pub laser: BlockId,
    pub cooler: BlockId,
}

impl Blocks {
    /// Every block's id is its registry position and its hitbox is in
    /// bounds.
    pub open spec fn wf(self) -> bool {
        &&& forall|i: int|
            0 <= i < self.blocks@.len() ==> (#[trigger] self.blocks@[i]).id == i
                && self.blocks@[i].hitbox.wf()
    }

    /// Look a block up by id. An invalid id is a programming error, so
    /// the caller must stay within the registry.
    pub fn get_block(&self, id: BlockId) -> (r: &Block)
        requires
            id < self.blocks@.len(),
        ensures
            *r == self.blocks@[id as int],
    {
        &self.blocks[id]
    }
}

/// Mesh identifiers for the six block kinds, as the asset shell
/// registered them.
#[derive(Clone, Copy, Debug, PartialEq, Eq, Structural)]
pub struct BlockMeshes {
    pub wall: u64,
    pub engine: u64,
    pub cube: u64,
    pub miner: u64,
    pub laser: u64,
    pub cooler: u64,
}

fn create_block(
    blocks: &mut Vec<Block>,
    mesh_id: u64,
    size: (u16, u16, i64),
    hitbox: Option<Hitbox>,
    kind_name: &'static str,
    setup: Option<GadgetKind>,
    is_gadget: bool,
    cost: Vec<ItemStack>,
) -> (id: BlockId)
    requires
        0 <= size.2 <= 100000,
        hitbox matches Some(h) ==> h.wf(),
        forall|i: int|
            0 <= i < old(blocks)@.len() ==> (#[trigger] old(blocks)@[i]).id == i
                && old(blocks)@[i].hitbox.wf(),
    ensures
        id == old(blocks)@.len(),
        final(blocks)@.len() == old(blocks)@.len() + 1,
        forall|i: int| 0 <= i < old(blocks)@.len() ==> final(blocks)@[i] == old(blocks)@[i],
        ({
            let b = final(blocks)@[id as int];
            &&& b.id == id
            &&& b.kind_name == kind_name
            &&& b.mesh_id == mesh_id
            &&& b.size == (size.0, size.1)
            &&& b.height == size.2
            &&& b.setup == setup
            &&& b.is_gadget == is_gadget
            &&& b.cost == cost
            &&& b.hitbox == (match hitbox {
                Some(h) => h,
                None => Hitbox {
                    shape: ColliderShape::Cuboid(
                        Vec3 {
                            x: (size.0 * 1000) as i64,
                            y: (size.1 * 1000) as i64,
                            z: size.2,
                        },
                    ),
                    offset: Vec3 { x: 0, y: 0, z: (size.2 / 2) as i64 },
                },
            })
            &&& b.hitbox.wf()
        }),
        forall|i: int|
            0 <= i < final(blocks)@.len() ==> (#[trigger] final(blocks)@[i]).id == i
                && final(blocks)@[i].hitbox.wf(),
{
    let id = blocks.len();
    let hb = match hitbox {
        Some(h) => h,
        None => Hitbox {
            shape: ColliderShape::Cuboid(
                Vec3 { x: size.0 as i64 * 1000, y: size.1 as i64 * 1000, z: size.2 },
            ),
            offset: Vec3 { x: 0, y: 0, z: size.2 / 2 },
        },
    };
    let block = Block {
        id,
        mesh_id,
        kind_name,
        setup,
        is_gadget,
        cost,
        hitbox: hb,
        size: (size.0, size.1),
        height: size.2,
    };
    blocks.push(block);
    id
}

/// Build the block registry: the six block kinds with their meshes,
/// dimensions, hitboxes, gadget setup hooks and costs.
pub fn load_blocks(meshes: &BlockMeshes) -> (r: Blocks)
    ensures
        r.wf(),
        r.blocks@.len() == 6,
        r.wall == 0 && r.engine == 1 && r.cube == 2 && r.miner == 3 && r.laser == 4 && r.cooler
            == 5,
        r.blocks@[r.wall as int].mesh_id == meshes.wall,
        r.blocks@[r.wall as int].height == 3000,
        r.blocks@[r.wall as int].setup is None,
        !r.blocks@[r.wall as int].is_gadget,
        r.blocks@[r.wall as int].cost@.len() == 0,
        r.blocks@[r.engine as int].mesh_id == meshes.engine,
        r.blocks@[r.engine as int].height == 1000,
        r.blocks@[r.engine as int].setup is None,
        !r.blocks@[r.engine as int].is_gadget,
        r.blocks@[r.engine as int].cost@.len() == 0,
        r.blocks@[r.cube as int].mesh_id == meshes.cube,
        r.blocks@[r.cube as int].height == 1000,
        r.blocks@[r.cube as int].setup is None,
        !r.blocks@[r.cube as int].is_gadget,
        r.blocks@[r.cube as int].cost@.len() == 0,
        r.blocks@[r.miner as int].mesh_id == meshes.miner,
        r.blocks@[r.miner as int].setup == Some(GadgetKind::Miner),
        !r.blocks@[r.miner as int].is_gadget,
        r.blocks@[r.miner as int].cost@.len() == 0,
        r.blocks@[r.miner as int].hitbox == (Hitbox {
            shape: ColliderShape::Cuboid(Vec3 { x: 1000, y: 1000, z: 1000 }),
            offset: Vec3 { x: 0, y: 0, z: 500 },
        }),
        r.blocks@[r.laser as int].mesh_id == meshes.laser,
        r.blocks@[r.laser as int].setup == Some(GadgetKind::Laser),
        r.blocks@[r.laser as int].is_gadget,
        r.blocks@[r.laser as int].hitbox == (Hitbox {
            shape: ColliderShape::Cuboid(Vec3 { x: 600, y: 600, z: 525 }),
            offset: Vec3 { x: 0, y: 0, z: 262 },
        }),
        r.blocks@[r.laser as int].cost@ == seq![
            ItemStack { item: GameItem::Iron, count: 15 },
            ItemStack { item: GameItem::Copper, count: 15 },
        ],
        r.blocks@[r.cooler as int].mesh_id == meshes.cooler,
        r.blocks@[r.cooler as int].setup == Some(GadgetKind::Cooler),
        r.blocks@[r.cooler as int].is_gadget,
        r.blocks@[r.cooler as int].hitbox == (Hitbox {
            shape: ColliderShape::Cuboid(Vec3 { x: 600, y: 600, z: 200 }),
            offset: Vec3 { x: 0, y: 0, z: 262 },
        }),
        r.blocks@[r.cooler as int].cost@ == seq![
            ItemStack { item: GameItem::Iron, count: 10 },
            ItemStack { item: GameItem::Copper, count: 10 },
        ],
{
    let mut blocks: Vec<Block> = Vec::new();
    let wall = create_block(
        &mut blocks,
        meshes.wall,
        (1, 1, 3000),
        None,
        "wall",
        None,
        false,
        Vec::new(),
    );
    let engine = create_block(
        &mut blocks,
        meshes.engine,
        (1, 1, 1000),
        None,
        "engine",
        None,
        false,
        Vec::new(),
    );
    let cube = create_block(
        &mut blocks,
        meshes.cube,
        (1, 1, 1000),
        None,
        "Box",
        None,
        false,
        Vec::new(),
    );
    let miner = create_block(
        &mut blocks,
        meshes.miner,
        (1, 1, 1000),
        None,
        "Miner",
        Some(GadgetKind::Miner),
        false,
        Vec::new(),
    );
    let mut laser_cost: Vec<ItemStack> = Vec::new();
    laser_cost.push(ItemStack { item: GameItem::Iron, count: 15 });
    laser_cost.push(ItemStack { item: GameItem::Copper, count: 15 });
    let laser = create_block(
        &mut blocks,
        meshes.laser,
        (1, 1, 200),
        Some(
            Hitbox {
                shape: ColliderShape::Cuboid(Vec3 { x: 600, y: 600, z: 525 }),
                offset: Vec3 { x: 0, y: 0, z: 262 },
            },
        ),
        "Laser",
        Some(GadgetKind::Laser),
        true,
        laser_cost,
    );
    let mut cooler_cost: Vec<ItemStack> = Vec::new();
    cooler_cost.push(ItemStack { item: GameItem::Iron, count: 10 });
    cooler_cost.push(ItemStack { item: GameItem::Copper, count: 10 });
    let cooler = create_block(
        &mut blocks,
        meshes.cooler,
        (1, 1, 200),
        Some(
            Hitbox {
                shape: ColliderShape::Cuboid(Vec3 { x: 600, y: 600, z: 200 }),
                offset: Vec3 { x: 0, y: 0, z: 262 },
            },
        ),
        "Cooler",
        Some(GadgetKind::Cooler),
        true,
        cooler_cost,
    );
    proof {
        assert(laser_cost@ =~= seq![
            ItemStack { item: GameItem::Iron, count: 15 },
            ItemStack { item: GameItem::Copper, count: 15 },
        ]);
        assert(cooler_cost@ =~= seq![
            ItemStack { item: GameItem::Iron, count: 10 },
            ItemStack { item: GameItem::Copper, count: 10 },
        ]);
    }
    Blocks { blocks, wall, engine, cube, miner, laser, cooler }
}

/// Register the three gadget systems with the scheduler, each running
/// after physics.
pub fn setup_systems(builder: &mut crate::scheduler::DispatcherBuilder)
    ensures
        final(builder).entries@ == old(builder).entries@.push(
            crate::scheduler::SystemId::Miner,
        ).push(crate::scheduler::SystemId::Laser).push(crate::scheduler::SystemId::Cooler),
        final(builder).after@.len() == old(builder).after@.len() + 3,
        forall|k: int|
            0 <= k < old(builder).after@.len() ==> #[trigger] final(builder).after@[k] == old(
                builder,
            ).after@[k],
        final(builder).after@[old(builder).after@.len() as int] == (crate::scheduler::AfterEdge {
            sys: crate::scheduler::SystemId::Miner,
            dep: crate::scheduler::SystemId::Physics,
        }),
        final(builder).after@[old(builder).after@.len() + 1 as int] == (crate::scheduler::AfterEdge {
            sys: crate::scheduler::SystemId::Laser,
            dep: crate::scheduler::SystemId::Physics,
        }),
        final(builder).after@[old(builder).after@.len() + 2 as int] == (crate::scheduler::AfterEdge {
            sys: crate::scheduler::SystemId::Cooler,
            dep: crate::scheduler::SystemId::Physics,
        }),
{
    let mut d1: Vec<crate::scheduler::SystemId> = Vec::new();
    d1.push(crate::scheduler::SystemId::Physics);
    proof {
        assert(d1@.len() == 1 && d1@[0] == crate::scheduler::SystemId::Physics);
    }
    let ghost l0 = builder.after@.len() as int;
    builder.add(crate::scheduler::SystemId::Miner, d1);
    proof {
        assert(builder.after@[l0 + 0] == (crate::scheduler::AfterEdge {
            sys: crate::scheduler::SystemId::Miner,
            dep: crate::scheduler::SystemId::Physics,
        }));
    }
    let mut d2: Vec<crate::scheduler::SystemId> = Vec::new();
    d2.push(crate::scheduler::SystemId::Physics);
    proof {
        assert(d2@.len() == 1 && d2@[0] == crate::scheduler::SystemId::Physics);
    }
    let ghost l1 = builder.after@.len() as int;
    builder.add(crate::scheduler::SystemId::Laser, d2);
    proof {
        assert(builder.after@[l1 + 0] == (crate::scheduler::AfterEdge {
            sys: crate::scheduler::SystemId::Laser,
            dep: crate::scheduler::SystemId::Physics,
        }));
    }
    let mut d3: Vec<crate::scheduler::SystemId> = Vec::new();
    d3.push(crate::scheduler::SystemId::Physics);
    proof {
        assert(d3@.len() == 1 && d3@[0] == crate::scheduler::SystemId::Physics);
    }
    let ghost l2 = builder.after@.len() as int;
    builder.add(crate::scheduler::SystemId::Cooler, d3);
    proof {
        assert(builder.after@[l2 + 0] == (crate::scheduler::AfterEdge {
            sys: crate::scheduler::SystemId::Cooler,
            dep: crate::scheduler::SystemId::Physics,
        }));
    }
}

} // verus!
