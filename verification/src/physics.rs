//! Rigid-body physics: once per tick, every entity owning both a
//! transform and a rigid body moves by `velocity * dt`. Runs first in
//! the schedule, so every consumer of transforms this tick sees the
//! post-movement positions.

use vstd::prelude::*;
use crate::components::Transform;
use crate::events::StoreEvent;
use crate::math::Vec3;
use crate::world::{same_aux, Entity, Slot, World};
use crate::{COORD_LIMIT, VEL_LIMIT};

verus! {

/// An entity moves this tick: live, with both a transform and a body.
pub open spec fn moves(s: Slot) -> bool {
    s.alive && s.transform is Some && s.body is Some
}

/// The transform after one integration step: position advanced by
/// `velocity * dt`, rotation and scale untouched.
pub open spec fn integrated(t: Transform, v: Vec3, dt: int) -> Transform {
    Transform {
        position: Vec3 {
            x: (t.position.x + v.x * dt) as i64,
            y: (t.position.y + v.y * dt) as i64,
            z: (t.position.z + v.z * dt) as i64,
        },
        rotation: t.rotation,
        scale: t.scale,
    }
}

/// Every moving entity stays within the coordinate bound after one step:
/// a machine limit on the fixed-point representation, demanded of the
/// caller rather than silently clamped.
pub open spec fn phys_ok(w: World, dt: int) -> bool {
    forall|i: int|
        0 <= i < w.slots@.len() && moves(#[trigger] w.slots@[i]) ==> {
            let p = w.slots@[i].transform->Some_0.position;
            let v = w.slots@[i].body->Some_0.velocity;
            &&& -COORD_LIMIT <= p.x + v.x * dt <= COORD_LIMIT
            &&& -COORD_LIMIT <= p.y + v.y * dt <= COORD_LIMIT
            &&& -COORD_LIMIT <= p.z + v.z * dt <= COORD_LIMIT
        }
}

/// The Modified events one physics pass appends: one per moving entity,
/// in slot order.
pub open spec fn phys_moves_events(s: Seq<Slot>) -> Seq<StoreEvent>
    decreases s.len(),
{
    if s.len() == 0 {
        Seq::empty()
    } else {
        phys_moves_events(s.drop_last()) + if moves(s.last()) {
            seq![StoreEvent::Modified((s.len() - 1) as usize)]
        } else {
            Seq::empty()
        }
    }
}

/// The physics system.
pub struct PhysicsSystem;

impl PhysicsSystem {
    /// One physics tick: for every entity with both a transform and a
    /// rigid body, `position += velocity * dt`; nothing else changes,
    /// and one Modified event is recorded per moved entity, in slot
    /// order.
    pub fn run(&self, w: &mut World, dt: i64)
        requires
            old(w).wf(),
            0 <= dt <= 1000,
            phys_ok(*old(w), dt as int),
        ensures
            final(w).wf(),
            final(w).slots@.len() == old(w).slots@.len(),
            forall|i: int|
                0 <= i < old(w).slots@.len() && moves(#[trigger] old(w).slots@[i]) ==> final(w).slots@[i] == (Slot {
                    transform: Some(
                        integrated(
                            old(w).slots@[i].transform->Some_0,
                            old(w).slots@[i].body->Some_0.velocity,
                            dt as int,
                        ),
                    ),
                    ..old(w).slots@[i]
                }),
            forall|i: int|
                0 <= i < old(w).slots@.len() && !moves(#[trigger] old(w).slots@[i]) ==> final(w).slots@[i] == old(w).slots@[i],
            final(w).transform_events.events@ == old(w).transform_events.events@
                + phys_moves_events(old(w).slots@),
            final(w).transform_events.cursors@ == old(w).transform_events.cursors@,
            final(w).model_events == old(w).model_events,
            same_aux(*old(w), *final(w)),
    {
        let ghost s0 = old(w).slots@;
        let n = w.slots.len();
        let mut i: usize = 0;
        while i < n
            invariant
                w.wf(),
                old(w).wf(),
                phys_ok(*old(w), dt as int),
                0 <= dt <= 1000,
                i <= n == s0.len(),
                s0 == old(w).slots@,
                w.slots@.len() == s0.len(),
                forall|j: int|
                    0 <= j < i && moves(#[trigger] s0[j]) ==> w.slots@[j] == (Slot {
                        transform: Some(
                            integrated(
                                s0[j].transform->Some_0,
                                s0[j].body->Some_0.velocity,
                                dt as int,
                            ),
                        ),
                        ..s0[j]
                    }),
                forall|j: int|
                    0 <= j < s0.len() && !(j < i && moves(#[trigger] s0[j])) ==> w.slots@[j]
                        == s0[j],
                w.transform_events.events@ == old(w).transform_events.events@
                    + phys_moves_events(s0.take(i as int)),
                w.transform_events.cursors@ == old(w).transform_events.cursors@,
                w.model_events == old(w).model_events,
                same_aux(*old(w), *w),
            decreases n - i,
        {
            proof {
                assert(s0.take(i + 1).drop_last() =~= s0.take(i as int));
                assert(s0.take(i + 1).last() == s0[i as int]);
            }
            let s = w.slots[i];
            proof {
                assert(w.slots@[i as int] == s0[i as int]);
            }
            if s.alive && s.transform.is_some() && s.body.is_some() {
                let t = s.transform.unwrap();
                let b = s.body.unwrap();
                let e = Entity { idx: i, gen: s.gen };
                let v = b.velocity;
                proof {
                    assert(moves(s0[i as int]));
                    assert(-VEL_LIMIT <= v.x <= VEL_LIMIT && -VEL_LIMIT <= v.y <= VEL_LIMIT
                        && -VEL_LIMIT <= v.z <= VEL_LIMIT);
                    assert(-1100000000 <= v.x * dt <= 1100000000 && -1100000000 <= v.y * dt
                        <= 1100000000 && -1100000000 <= v.z * dt <= 1100000000)
                        by (nonlinear_arith)
                        requires
                            -VEL_LIMIT <= v.x <= VEL_LIMIT,
                            -VEL_LIMIT <= v.y <= VEL_LIMIT,
                            -VEL_LIMIT <= v.z <= VEL_LIMIT,
                            0 <= dt <= 1000,
                    ;
                }
                let nt = Transform {
                    position: Vec3 {
                        x: t.position.x + v.x * dt,
                        y: t.position.y + v.y * dt,
                        z: t.position.z + v.z * dt,
                    },
                    rotation: t.rotation,
                    scale: t.scale,
                };
                w.set_transform(e, nt);
                proof {
                    assert(w.transform_events.events@ =~= old(w).transform_events.events@
                        + phys_moves_events(s0.take(i + 1)));
                }
            } else {
                proof {
                    assert(phys_moves_events(s0.take(i + 1)) =~= phys_moves_events(
                        s0.take(i as int),
                    ) + Seq::<StoreEvent>::empty());
                    assert(w.transform_events.events@ =~= old(w).transform_events.events@
                        + phys_moves_events(s0.take(i + 1)));
                }
            }
            i += 1;
        }
        proof {
            assert(s0.take(n as int) =~= s0);
        }
    }
}

} // verus!
