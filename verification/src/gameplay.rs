//! The asteroid field: a procedural spawner that keeps a capped
//! population of asteroids flowing across the playfield, escalating
//! difficulty over time. Each tick it prunes dead roster entries, marks
//! drifted-off asteroids for removal, and either counts its spawn timer
//! down or raises the difficulty, resets the timer and spawns one new
//! asteroid with randomized lane, height, facing and item kind.

use vstd::prelude::*;
use crate::components::{
    Asteroid, AsteroidField, Collider, ColliderShape, GameItem, Health, Hitbox, Model, RigidBody,
    Rotation, Transform, CATEGORY_ASTEROID, CATEGORY_MISSILE, CATEGORY_SHIP, MAX_LEVEL, SPAWN_BASE,
    SPAWN_FACTOR,
};
use crate::math::Vec3;
use crate::render::ObjectMeshes;
use crate::world::{Entity, World};
use crate::{COORD_LIMIT, TAU_MILLI};

verus! {

/// Forward drift of an asteroid, milli-units per tick.
pub const ASTEROID_VELOCITY: i64 = 50;

/// Radius of an asteroid's spherical collider, milli-units.
pub const ASTEROID_RADIUS: i64 = 1000;

/// Hit points a fresh asteroid starts with.
pub const ASTEROID_HEALTH: i64 = 5;

/// Playfield half-width the initial field watches, milli-units.
pub const FIELD_X_RANGE: i64 = 15000;

/// The mesh an asteroid of the given item kind uses.
pub open spec fn asteroid_mesh(m: ObjectMeshes, item: GameItem) -> u64 {
    match item {
        GameItem::Iron => m.asteroid_iron,
        GameItem::Copper => m.asteroid_copper,
    }
}

/// Relies on `rand::Rng::gen_range` on `rand::thread_rng`: a uniform
/// value in `[lo, hi)`. It panics on an empty range, which the
/// precondition rules out.
#[verifier::external_body]
fn rand_range_i64(lo: i64, hi: i64) -> (r: i64)
    requires
        lo < hi,
    ensures
        lo <= r < hi,
{
    rand::Rng::gen_range(&mut rand::thread_rng(), lo..hi)
}

/// Relies on `rand::Rng::gen_range` on `rand::thread_rng`: a uniform
/// value in `[lo, hi)`. It panics on an empty range, which the
/// precondition rules out.
#[verifier::external_body]
fn rand_range_u16(lo: u16, hi: u16) -> (r: u16)
    requires
        lo < hi,
    ensures
        lo <= r < hi,
{
    rand::Rng::gen_range(&mut rand::thread_rng(), lo..hi)
}

/// Relies on `rand::Rng::gen::<bool>` on `rand::thread_rng`; nothing is
/// promised about the outcome.
#[verifier::external_body]
fn rand_bool() -> bool {
    rand::Rng::gen(&mut rand::thread_rng())
}

/// Create one asteroid entity: transform at `position` with the given
/// facing, the item's mesh (no render handle yet), forward drift
/// velocity, a spherical collider in the asteroid category masked
/// against ships and missiles, the item marker, and full health.
/// Existing live entities are untouched.
pub fn spawn_asteroid(
    w: &mut World,
    position: Vec3,
    yaw: i64,
    item: GameItem,
    meshes: &ObjectMeshes,
) -> (r: Entity)
    requires
        old(w).wf(),
        position.in_bounds(COORD_LIMIT as int),
    ensures
        final(w).wf(),
        final(w).spec_alive(r),
        !old(w).spec_alive(r),
        r.idx < final(w).slots@.len(),
        final(w).slots@[r.idx as int].transform == Some(
            Transform {
                position,
                rotation: Rotation::Yaw(yaw),
                scale: Vec3 { x: 1000, y: 1000, z: 1000 },
            },
        ),
        final(w).slots@[r.idx as int].model == Some(
            Model { mesh_id: asteroid_mesh(*meshes, item), model_id: None },
        ),
        final(w).slots@[r.idx as int].body == Some(
            RigidBody { velocity: Vec3 { x: ASTEROID_VELOCITY, y: 0, z: 0 } },
        ),
        final(w).slots@[r.idx as int].collider == Some(
            Collider {
                hitbox: Hitbox {
                    shape: ColliderShape::Sphere(ASTEROID_RADIUS),
                    offset: Vec3 { x: 0, y: 0, z: 0 },
                },
                category: CATEGORY_ASTEROID,
                mask: CATEGORY_SHIP | CATEGORY_MISSILE,
            },
        ),
        final(w).slots@[r.idx as int].health == Some(Health(ASTEROID_HEALTH)),
        final(w).asteroids.spec_get(r.idx) == Some(Asteroid(item)),
        forall|k: usize|
            k != r.idx ==> #[trigger] final(w).asteroids.spec_get(k) == old(w).asteroids.spec_get(
                k,
            ),
        forall|e: Entity| old(w).spec_alive(e) ==> final(w).spec_alive(e),
        forall|i: int|
            0 <= i < old(w).slots@.len() && old(w).slots@[i].alive ==> final(w).slots@[i] == old(
                w,
            ).slots@[i],
        old(w).slots@.len() <= final(w).slots@.len() <= old(w).slots@.len() + 1,
        final(w).renderer == old(w).renderer,
        final(w).utils == old(w).utils,
        final(w).miners == old(w).miners,
        final(w).lasers == old(w).lasers,
        final(w).coolers == old(w).coolers,
        final(w).missiles == old(w).missiles,
        final(w).fields == old(w).fields,
        final(w).transform_events.cursors@ == old(w).transform_events.cursors@,
        final(w).model_events.cursors@ == old(w).model_events.cursors@,
{
    let ghost wa = *w;
    let e = w.create_entity();
    proof {
        if e.idx < old(w).slots@.len() && old(w).slots@[e.idx as int].alive {
            let eo = Entity { idx: e.idx, gen: old(w).slots@[e.idx as int].gen };
            assert(old(w).spec_alive(eo));
            assert(false);
        }
    }
    let ghost wb = *w;
    w.insert_transform(
        e,
        Transform {
            position,
            rotation: Rotation::Yaw(yaw),
            scale: Vec3 { x: 1000, y: 1000, z: 1000 },
        },
    );
    let ghost wc = *w;
    w.insert_model(e, Model { mesh_id: asteroid_mesh_exec(meshes, item), model_id: None });
    let ghost wd = *w;
    w.insert_body(e, RigidBody { velocity: Vec3 { x: ASTEROID_VELOCITY, y: 0, z: 0 } });
    let ghost we = *w;
    w.insert_collider(
        e,
        Collider {
            hitbox: Hitbox {
                shape: ColliderShape::Sphere(ASTEROID_RADIUS),
                offset: Vec3 { x: 0, y: 0, z: 0 },
            },
            category: CATEGORY_ASTEROID,
            mask: CATEGORY_SHIP | CATEGORY_MISSILE,
        },
    );
    let ghost wf2 = *w;
    w.insert_health(e, Health(ASTEROID_HEALTH));
    let ghost wg = *w;
    w.insert_asteroid(e, Asteroid(item));
    proof {
        assert forall|e2: Entity| old(w).spec_alive(e2) implies w.spec_alive(e2) by {
            assert(wa.spec_alive(e2));
            assert(wb.spec_alive(e2));
            assert(wc.spec_alive(e2));
            assert(wd.spec_alive(e2));
            assert(we.spec_alive(e2));
            assert(wf2.spec_alive(e2));
            assert(wg.spec_alive(e2));
        }
    }
    e
}

fn asteroid_mesh_exec(meshes: &ObjectMeshes, item: GameItem) -> (r: u64)
    ensures
        r == asteroid_mesh(*meshes, item),
{
    match item {
        GameItem::Iron => meshes.asteroid_iron,
        GameItem::Copper => meshes.asteroid_copper,
    }
}

/// An asteroid at horizontal position `x` has drifted off a playfield
/// of half-width `range`.
pub open spec fn drifted_off(x: int, range: int) -> bool {
    x > range || x < -range
}

/// The freshly spawned asteroid, as the roster's newest entry shows it
/// in world `w`: live, standing at the left edge of the playfield with
/// the fixed forward drift, a spherical collider in the asteroid
/// category masked against ships and missiles, an item marker, and
/// full health.
pub open spec fn spawned_asteroid_shape(w: World, e: Entity, range: i64) -> bool {
    &&& w.spec_alive(e)
    &&& w.slots@[e.idx as int].transform matches Some(t) && t.position.x == -range
    &&& w.slots@[e.idx as int].body == Some(
        RigidBody { velocity: Vec3 { x: ASTEROID_VELOCITY, y: 0, z: 0 } },
    )
    &&& w.slots@[e.idx as int].collider == Some(
        Collider {
            hitbox: Hitbox {
                shape: ColliderShape::Sphere(ASTEROID_RADIUS),
                offset: Vec3 { x: 0, y: 0, z: 0 },
            },
            category: CATEGORY_ASTEROID,
            mask: CATEGORY_SHIP | CATEGORY_MISSILE,
        },
    )
    &&& w.slots@[e.idx as int].health == Some(Health(ASTEROID_HEALTH))
    &&& w.asteroids.spec_get(e.idx) is Some
}

/// What one spawner tick leaves of a field that held `f`: the range is
/// kept, the level never passes its cap, and the roster is pruned —
/// every surviving entry is live, every entry live at the start
/// survives, and nothing joins it beyond the (at most one) spawned
/// asteroid. A positive countdown merely ticks down; at zero the level
/// climbs (capped), the countdown resets to the baseline less the new
/// level's share, and the newest roster entry is the freshly spawned
/// asteroid. Every live roster entry that had drifted off the range is
/// marked for removal.
pub open spec fn field_post(f: AsteroidField, opt: Option<AsteroidField>, w0: World, w1: World) -> bool {
    opt matches Some(f2) && {
        &&& f2.x_range == f.x_range
        &&& f2.level <= MAX_LEVEL
        &&& f2.asteroids@.len() <= f.asteroids@.len() + 1
        &&& forall|m2: int|
            0 <= m2 < f2.asteroids@.len() ==> w1.spec_alive(#[trigger] f2.asteroids@[m2])
        &&& forall|m: int|
            0 <= m < f.asteroids@.len() && w0.spec_alive(#[trigger] f.asteroids@[m])
                ==> f2.asteroids@.contains(f.asteroids@[m])
        &&& (f.tick > 0 ==> {
            &&& f2.tick == f.tick - 1
            &&& f2.level == f.level
            &&& f2.asteroids@.len() <= f.asteroids@.len()
            &&& forall|m2: int|
                0 <= m2 < f2.asteroids@.len() ==> f.asteroids@.contains(
                    #[trigger] f2.asteroids@[m2],
                )
        })
        &&& (f.tick == 0 ==> {
            &&& f2.level == (if f.level < MAX_LEVEL {
                (f.level + 1) as u16
            } else {
                f.level
            })
            &&& f2.tick == SPAWN_BASE - f2.level * SPAWN_FACTOR
            &&& f2.asteroids@.len() >= 1
            &&& forall|m2: int|
                0 <= m2 < f2.asteroids@.len() - 1 ==> f.asteroids@.contains(
                    #[trigger] f2.asteroids@[m2],
                )
            &&& spawned_asteroid_shape(w1, f2.asteroids@.last(), f.x_range)
            &&& ((forall|m: int|
                0 <= m < f.asteroids@.len() ==> w0.spec_alive(#[trigger] f.asteroids@[m]))
                ==> f2.asteroids@.len() == f.asteroids@.len() + 1)
        })
        &&& forall|m: int|
            0 <= m < f.asteroids@.len() && w0.spec_alive(#[trigger] f.asteroids@[m])
                && w0.slots@[f.asteroids@[m].idx as int].transform is Some && drifted_off(
                w0.slots@[f.asteroids@[m].idx as int].transform->Some_0.position.x as int,
                f.x_range as int,
            ) ==> w1.utils.to_be_removed@.contains(f.asteroids@[m])
    }
}

/// One field's tick, at sparse key `key`.
fn field_tick(w: &mut World, key: usize, meshes: &ObjectMeshes)
    requires
        old(w).wf(),
    ensures
        final(w).wf(),
        forall|k2: usize|
            k2 != key ==> #[trigger] final(w).fields.spec_get(k2) == old(w).fields.spec_get(k2),
        old(w).fields.spec_get(key) is None ==> final(w).fields.spec_get(key) == old(w).fields.spec_get(key),
        old(w).fields.spec_get(key) matches Some(f) ==> field_post(
            f,
            final(w).fields.spec_get(key),
            *old(w),
            *final(w),
        ),
        forall|e: Entity| old(w).spec_alive(e) ==> final(w).spec_alive(e),
        forall|i: int|
            0 <= i < old(w).slots@.len() && old(w).slots@[i].alive ==> final(w).slots@[i] == old(
                w,
            ).slots@[i],
        old(w).slots@.len() <= final(w).slots@.len(),
        forall|e: Entity|
            old(w).utils.to_be_removed@.contains(e) ==> final(w).utils.to_be_removed@.contains(e),
        // only roster asteroids are ever marked
        forall|e: Entity|
            final(w).utils.to_be_removed@.contains(e) ==> old(w).utils.to_be_removed@.contains(e)
                || (old(w).fields.spec_get(key) matches Some(f) && f.asteroids@.contains(e)),
        final(w).renderer == old(w).renderer,
        final(w).miners == old(w).miners,
        final(w).lasers == old(w).lasers,
        final(w).coolers == old(w).coolers,
        final(w).missiles == old(w).missiles,
        final(w).transform_events.cursors@ == old(w).transform_events.cursors@,
        final(w).model_events.cursors@ == old(w).model_events.cursors@,
        forall|k2: usize|
            (#[trigger] old(w).asteroids.spec_get(k2)) matches Some(a)
                ==> final(w).asteroids.spec_get(k2) == Some(a),
    {
        let f_opt = w.fields.take(key);
        proof {
            assert forall|k2: usize|
                #[trigger] w.fields.spec_get(k2) is Some implies k2 < w.slots@.len()
                && w.slots@[k2 as int].alive by {}
        }
        match f_opt {
            None => {},
            Some(f) => {
                proof {
                    assert(old(w).fields.spec_get(key) matches Some(ff) ==> ff.wf());
                    assert(f.wf());
                }
                let na = f.asteroids.len();
                let mut kept: Vec<Entity> = Vec::new();
                let mut all_alive: bool = true;
                let mut m: usize = 0;
                while m < na
                    invariant
                        w.wf(),
                        old(w).wf(),
                        m <= na == f.asteroids@.len(),
                        w.slots == old(w).slots,
                        w.free == old(w).free,
                        w.renderer == old(w).renderer,
                        w.miners == old(w).miners,
                        w.lasers == old(w).lasers,
                        w.coolers == old(w).coolers,
                        w.missiles == old(w).missiles,
                        w.asteroids == old(w).asteroids,
                        forall|k2: usize|
                            #[trigger] w.fields.spec_get(k2) == if k2 == key {
                                None::<AsteroidField>
                            } else {
                                old(w).fields.spec_get(k2)
                            },
                        w.transform_events == old(w).transform_events,
                        w.model_events == old(w).model_events,
                        kept@.len() <= m,
                        all_alive ==> kept@.len() == m,
                        !all_alive ==> exists|p: int|
                            0 <= p < m && !old(w).spec_alive(#[trigger] f.asteroids@[p]),
                        forall|q: int|
                            0 <= q < kept@.len() ==> old(w).spec_alive(#[trigger] kept@[q])
                                && f.asteroids@.contains(kept@[q]),
                        forall|m2: int|
                            0 <= m2 < m && old(w).spec_alive(#[trigger] f.asteroids@[m2])
                                ==> kept@.contains(f.asteroids@[m2]),
                        forall|e: Entity|
                            old(w).utils.to_be_removed@.contains(e)
                                ==> w.utils.to_be_removed@.contains(e),
                        forall|e: Entity|
                            w.utils.to_be_removed@.contains(e) ==> old(
                                w,
                            ).utils.to_be_removed@.contains(e) || f.asteroids@.contains(e),
                        forall|p: int|
                            0 <= p < m && old(w).spec_alive(#[trigger] f.asteroids@[p]) && old(
                                w,
                            ).slots@[f.asteroids@[p].idx as int].transform is Some && drifted_off(
                                old(
                                    w,
                                ).slots@[f.asteroids@[p].idx as int].transform->Some_0.position.x
                                    as int,
                                f.x_range as int,
                            ) ==> w.utils.to_be_removed@.contains(f.asteroids@[p]),
                    decreases na - m,
                {
                    let a = f.asteroids[m];
                    let ghost qpre = w.utils.to_be_removed@;
                    let ghost kept0 = kept@;
                    if w.is_alive(a) {
                        kept.push(a);
                        proof {
                            assert(f.asteroids@.contains(f.asteroids@[m as int]));
                            assert(kept@[kept@.len() - 1] == a);
                            assert forall|m2: int|
                                0 <= m2 < m + 1 && old(w).spec_alive(
                                    #[trigger] f.asteroids@[m2],
                                ) implies kept@.contains(f.asteroids@[m2]) by {
                                if m2 < m {
                                    let q2 = choose|q2: int|
                                        0 <= q2 < kept0.len() && kept0[q2] == f.asteroids@[m2];
                                    assert(kept@[q2] == f.asteroids@[m2]);
                                } else {
                                    assert(kept@[kept@.len() - 1] == f.asteroids@[m2]);
                                }
                            }
                        }
                        let tf = w.get_transform(a);
                        match tf {
                            Some(t) => {
                                let ax: i64 = if t.position.x < 0 {
                                    -t.position.x
                                } else {
                                    t.position.x
                                };
                                if ax > f.x_range {
                                    w.utils.mark_for_removal(a);
                                    proof {
                                        if !qpre.contains(a) {
                                            assert(w.utils.to_be_removed@ == qpre.push(a));
                                            assert(w.utils.to_be_removed@[qpre.len() as int]
                                                == a);
                                        }
                                        assert(w.utils.to_be_removed@.contains(a));
                                        assert forall|e: Entity| qpre.contains(e) implies
                                            w.utils.to_be_removed@.contains(e) by {
                                            let i2 = choose|i2: int|
                                                0 <= i2 < qpre.len() && qpre[i2] == e;
                                            if !qpre.contains(a) {
                                                assert(w.utils.to_be_removed@[i2] == e);
                                            }
                                        }
                                        assert(f.asteroids@.contains(a));
                                        assert forall|e: Entity|
                                            w.utils.to_be_removed@.contains(e) implies
                                            qpre.contains(e) || f.asteroids@.contains(e) by {
                                            if !qpre.contains(a) {
                                                let i2 = choose|i2: int|
                                                    0 <= i2 < w.utils.to_be_removed@.len()
                                                        && w.utils.to_be_removed@[i2] == e;
                                                if i2 < qpre.len() {
                                                    assert(qpre[i2] == e);
                                                } else {
                                                    assert(e == a);
                                                }
                                            }
                                        }
                                    }
                                }
                            },
                            None => {},
                        }
                    } else {
                        all_alive = false;
                    }
                    m += 1;
                }
                if f.tick > 0 {
                    let ghost ks = kept@;
                    let f2 = AsteroidField {
                        asteroids: kept,
                        tick: f.tick - 1,
                        level: f.level,
                        x_range: f.x_range,
                    };
                    w.fields.insert(key, f2);
                    proof {
                        assert forall|m2: int| 0 <= m2 < ks.len() implies w.spec_alive(
                            #[trigger] ks[m2],
                        ) by {
                            assert(old(w).spec_alive(ks[m2]));
                        }
                    }
                } else {
                    let nlevel: u16 = if f.level < MAX_LEVEL {
                        f.level + 1
                    } else {
                        f.level
                    };
                    let ntick: u16 = SPAWN_BASE - nlevel * SPAWN_FACTOR;
                    let bound: u16 = MAX_LEVEL - nlevel + 5;
                    let roll = rand_range_u16(0, bound);
                    let py: i64;
                    let pz: i64;
                    if roll < 4 {
                        py = rand_range_i64(1000, 8000);
                        pz = rand_range_i64(0, 5000);
                    } else {
                        let base_y = rand_range_i64(-3000, 3000);
                        let off: i64 = if rand_bool() {
                            14000
                        } else {
                            -10000
                        };
                        py = base_y + off;
                        pz = rand_range_i64(6000, 9000);
                    }
                    let yaw = rand_range_i64(0, TAU_MILLI);
                    let item = if rand_range_i64(0, 2) == 0 {
                        GameItem::Iron
                    } else {
                        GameItem::Copper
                    };
                    let pos = Vec3 { x: -f.x_range, y: py, z: pz };
                    let ghost ks = kept@;
                    let ghost wps = *w;
                    let e = spawn_asteroid(w, pos, yaw, item, meshes);
                    let mut kept2 = kept;
                    kept2.push(e);
                    let ghost ks2 = kept2@;
                    let f2 = AsteroidField {
                        asteroids: kept2,
                        tick: ntick,
                        level: nlevel,
                        x_range: f.x_range,
                    };
                    w.fields.insert(key, f2);
                    proof {
                        assert(ks2 == ks.push(e));
                        assert(ks2.last() == e);
                        assert forall|m2: int| 0 <= m2 < ks2.len() implies w.spec_alive(
                            #[trigger] ks2[m2],
                        ) by {
                            if m2 < ks2.len() - 1 {
                                assert(ks2[m2] == ks[m2]);
                                assert(old(w).spec_alive(ks[m2]));
                                assert(wps.spec_alive(ks[m2]));
                            } else {
                                assert(ks2[m2] == e);
                            }
                        }
                        assert forall|m: int|
                            0 <= m < f.asteroids@.len() && old(w).spec_alive(
                                #[trigger] f.asteroids@[m],
                            ) implies ks2.contains(f.asteroids@[m]) by {
                            assert(ks.contains(f.asteroids@[m]));
                            let q2 = choose|q2: int|
                                0 <= q2 < ks.len() && ks[q2] == f.asteroids@[m];
                            assert(ks2[q2] == f.asteroids@[m]);
                        }
                        assert forall|m2: int|
                            0 <= m2 < ks2.len() - 1 implies f.asteroids@.contains(
                            #[trigger] ks2[m2],
                        ) by {
                            assert(ks2[m2] == ks[m2]);
                        }
                        assert(spawned_asteroid_shape(*w, e, f.x_range));
                    }
                }
            },
        }
    }

/// The field-spawner system.
pub struct AsteroidFieldSystem;

impl AsteroidFieldSystem {
    /// One spawner tick over every asteroid field in the store: prune
    /// dead roster entries, mark drifted-off asteroids for removal, and
    /// count down toward (or perform) one spawn, as `field_post`
    /// describes. Live entities are never deleted here, and nothing but
    /// the fields, the removal queue and freshly spawned asteroids
    /// changes.
    pub fn run(&self, w: &mut World, meshes: &ObjectMeshes)
        requires
            old(w).wf(),
        ensures
            final(w).wf(),
            forall|k: usize|
                (#[trigger] old(w).fields.spec_get(k)) matches Some(f) ==> field_post(
                    f,
                    final(w).fields.spec_get(k),
                    *old(w),
                    *final(w),
                ),
            forall|e: Entity| old(w).spec_alive(e) ==> final(w).spec_alive(e),
            forall|i: int|
                0 <= i < old(w).slots@.len() && old(w).slots@[i].alive ==> final(w).slots@[i]
                    == old(w).slots@[i],
            old(w).slots@.len() <= final(w).slots@.len(),
            forall|e: Entity|
                old(w).utils.to_be_removed@.contains(e)
                    ==> final(w).utils.to_be_removed@.contains(e),
            final(w).renderer == old(w).renderer,
            final(w).miners == old(w).miners,
            final(w).lasers == old(w).lasers,
            final(w).coolers == old(w).coolers,
            final(w).transform_events.cursors@ == old(w).transform_events.cursors@,
            final(w).model_events.cursors@ == old(w).model_events.cursors@,
    {
        let nf = w.fields.len();
        let mut keys: Vec<usize> = Vec::new();
        let mut j: usize = 0;
        while j < nf
            invariant
                w == old(w),
                w.wf(),
                j <= nf == w.fields.entries@.len(),
                keys@.len() == j,
                forall|p: int| 0 <= p < j ==> #[trigger] keys@[p] == w.fields.entries@[p].key,
            decreases nf - j,
        {
            keys.push(w.fields.key_at(j));
            j += 1;
        }
        proof {
            assert forall|p: int, q: int| 0 <= p < q < nf implies keys@[p] != keys@[q] by {
                assert(keys@[p] == w.fields.entries@[p].key);
                assert(keys@[q] == w.fields.entries@[q].key);
            }
        }
        let mut i: usize = 0;
        while i < nf
            invariant
                w.wf(),
                old(w).wf(),
                i <= nf,
                keys@.len() == nf,
                forall|p: int, q: int| 0 <= p < q < nf ==> keys@[p] != keys@[q],
                nf == old(w).fields.entries@.len(),
                forall|p: int|
                    0 <= p < nf ==> #[trigger] keys@[p] == old(w).fields.entries@[p].key,
                // keys not yet processed still hold their original field
                forall|k2: usize|
                    !(exists|p: int| 0 <= p < i && keys@[p] == k2) ==> #[trigger] w.fields.spec_get(
                        k2,
                    ) == old(w).fields.spec_get(k2),
                // processed keys satisfy the per-field contract
                forall|p: int|
                    0 <= p < i ==> ((#[trigger] old(w).fields.spec_get(keys@[p])) matches Some(f)
                        ==> field_post(f, w.fields.spec_get(keys@[p]), *old(w), *w)),
                forall|e: Entity| old(w).spec_alive(e) ==> w.spec_alive(e),
                forall|ii: int|
                    0 <= ii < old(w).slots@.len() && old(w).slots@[ii].alive ==> w.slots@[ii]
                        == old(w).slots@[ii],
                old(w).slots@.len() <= w.slots@.len(),
                forall|e: Entity|
                    old(w).utils.to_be_removed@.contains(e) ==> w.utils.to_be_removed@.contains(
                        e,
                    ),
                forall|e: Entity|
                    w.utils.to_be_removed@.contains(e) ==> old(w).utils.to_be_removed@.contains(e)
                        || (exists|k: usize|
                        (#[trigger] old(w).fields.spec_get(k)) matches Some(f)
                            && f.asteroids@.contains(e)),
                w.renderer == old(w).renderer,
                w.miners == old(w).miners,
                w.lasers == old(w).lasers,
                w.coolers == old(w).coolers,
                w.transform_events.cursors@ == old(w).transform_events.cursors@,
                w.model_events.cursors@ == old(w).model_events.cursors@,
            decreases nf - i,
        {
            let key = keys[i];
            let ghost wpre = *w;
            field_tick(w, key, meshes);
            proof {
                // the field this key held at the start is what field_tick saw
                assert(wpre.fields.spec_get(key) == old(w).fields.spec_get(key));
                if old(w).fields.spec_get(key) is Some {
                    let f = old(w).fields.spec_get(key)->Some_0;
                    assert(field_post(f, w.fields.spec_get(key), wpre, *w));
                    // strengthen the post from the mid-loop world to the
                    // original one: live slots were unchanged, liveness only
                    // grew, and the queue only grew
                    assert(field_post(f, w.fields.spec_get(key), *old(w), *w));
                }
                assert forall|p: int|
                    0 <= p < i + 1 implies ((#[trigger] old(w).fields.spec_get(keys@[p]))
                    matches Some(f) ==> field_post(f, w.fields.spec_get(keys@[p]), *old(w), *w)) by {
                    if old(w).fields.spec_get(keys@[p]) is Some {
                        let f = old(w).fields.spec_get(keys@[p])->Some_0;
                        if p < i {
                            assert(keys@[p] != key);
                            assert(w.fields.spec_get(keys@[p]) == wpre.fields.spec_get(keys@[p]));
                            assert(field_post(f, wpre.fields.spec_get(keys@[p]), *old(w), wpre));
                        }
                    }
                }
            }
            i += 1;
        }
        proof {
            assert forall|k: usize|
                (#[trigger] old(w).fields.spec_get(k)) is Some implies field_post(
                old(w).fields.spec_get(k)->Some_0,
                w.fields.spec_get(k),
                *old(w),
                *w,
            ) by {
                crate::sparse::lemma_sparse_get_index(old(w).fields.entries@, k);
                let p = choose|p: int|
                    0 <= p < old(w).fields.entries@.len() && (#[trigger] old(
                        w,
                    ).fields.entries@[p]).key == k;
                assert(keys@[p] == k);
            }
        }
    }
}

/// Bootstrap the asteroid field: a dedicated entity carrying the field
/// component with an empty roster, the countdown at zero (so the first
/// tick spawns), difficulty one, and the default playfield range.
pub fn init_world(w: &mut World) -> (r: Entity)
    requires
        old(w).wf(),
    ensures
        final(w).wf(),
        final(w).spec_alive(r),
        !old(w).spec_alive(r),
        final(w).fields.spec_get(r.idx) matches Some(f) && f.asteroids@.len() == 0 && f.tick == 0
            && f.level == 1 && f.x_range == FIELD_X_RANGE,
        // exactly one new entity, holding nothing but the field component
        r.idx < final(w).slots@.len(),
        crate::world::slot_empty(final(w).slots@[r.idx as int]),
        old(w).slots@.len() <= final(w).slots@.len() <= old(w).slots@.len() + 1,
        forall|i: int|
            0 <= i < old(w).slots@.len() && old(w).slots@[i].alive ==> final(w).slots@[i] == old(
                w,
            ).slots@[i],
        final(w).miners == old(w).miners,
        final(w).lasers == old(w).lasers,
        final(w).coolers == old(w).coolers,
        final(w).missiles == old(w).missiles,
        final(w).asteroids == old(w).asteroids,
        final(w).transform_events.events@ == old(w).transform_events.events@,
        final(w).model_events.events@ == old(w).model_events.events@,
        forall|e: Entity| old(w).spec_alive(e) ==> final(w).spec_alive(e),
        forall|k: usize|
            k != r.idx ==> #[trigger] final(w).fields.spec_get(k) == old(w).fields.spec_get(k),
        final(w).renderer == old(w).renderer,
        final(w).utils == old(w).utils,
        final(w).transform_events.cursors@ == old(w).transform_events.cursors@,
        final(w).model_events.cursors@ == old(w).model_events.cursors@,
{
    let ghost wa = *w;
    let e = w.create_entity();
    proof {
        if e.idx < old(w).slots@.len() && old(w).slots@[e.idx as int].alive {
            let eo = Entity { idx: e.idx, gen: old(w).slots@[e.idx as int].gen };
            assert(old(w).spec_alive(eo));
            assert(false);
        }
    }
    w.insert_field(
        e,
        AsteroidField { asteroids: Vec::new(), tick: 0, level: 1, x_range: FIELD_X_RANGE },
    );
    e
}

/// Register the field spawner with the scheduler, to run after the
/// model-sync pass.
pub fn setup_systems(builder: &mut crate::scheduler::DispatcherBuilder)
    ensures
        final(builder).entries@ == old(builder).entries@.push(
            crate::scheduler::SystemId::FieldSpawner,
        ),
        final(builder).after@.len() == old(builder).after@.len() + 1,
        forall|k: int|
            0 <= k < old(builder).after@.len() ==> #[trigger] final(builder).after@[k] == old(
                builder,
            ).after@[k],
        final(builder).after@[old(builder).after@.len() as int] == (crate::scheduler::AfterEdge {
            sys: crate::scheduler::SystemId::FieldSpawner,
            dep: crate::scheduler::SystemId::ModelSync,
        }),
{
    let mut deps: Vec<crate::scheduler::SystemId> = Vec::new();
    deps.push(crate::scheduler::SystemId::ModelSync);
    proof {
        assert(deps@.len() == 1 && deps@[0] == crate::scheduler::SystemId::ModelSync);
    }
    let ghost l0 = builder.after@.len() as int;
    builder.add(crate::scheduler::SystemId::FieldSpawner, deps);
    proof {
        assert(builder.after@[l0 + 0] == (crate::scheduler::AfterEdge {
            sys: crate::scheduler::SystemId::FieldSpawner,
            dep: crate::scheduler::SystemId::ModelSync,
        }));
    }
}

} // verus!
