//! Ship assembly: a ship aggregate entity carrying the shared heat
//! resource, and gadget blocks attached to it by back-reference. A
//! block knows its ship; the ship does not enumerate its blocks.

use vstd::prelude::*;
use crate::block::{Block, GadgetKind};
use crate::components::{
    Collider, Cooler, GadgetEntity, Laser, Miner, Model, Rotation, Ship, Transform,
    CATEGORY_ASTEROID, CATEGORY_MISSILE, CATEGORY_SHIP,
};
use crate::math::Vec3;
use crate::world::{Entity, World};
use crate::COORD_LIMIT;

verus! {

/// Create a ship entity at the origin with zero heat.
pub fn create_ship(w: &mut World) -> (r: Entity)
    requires
        old(w).wf(),
    ensures
        final(w).wf(),
        final(w).spec_alive(r),
        !old(w).spec_alive(r),
        r.idx < final(w).slots@.len(),
        final(w).slots@[r.idx as int].ship == Some(Ship { heat: 0 }),
        final(w).slots@[r.idx as int].transform matches Some(t) && t.position == (Vec3 {
            x: 0,
            y: 0,
            z: 0,
        }),
        forall|e: Entity| old(w).spec_alive(e) ==> final(w).spec_alive(e),
        forall|i: int|
            0 <= i < old(w).slots@.len() && old(w).slots@[i].alive ==> final(w).slots@[i] == old(
                w,
            ).slots@[i],
        crate::world::same_sparse(*old(w), *final(w)),
        final(w).utils == old(w).utils,
        final(w).renderer == old(w).renderer,
        final(w).transform_events.cursors@ == old(w).transform_events.cursors@,
        final(w).model_events.cursors@ == old(w).model_events.cursors@,
{
    let ghost wa = *w;
    let e = w.create_entity();
    proof {
        if e.idx < old(w).slots@.len() && old(w).slots@[e.idx as int].alive {
            let eo = Entity { idx: e.idx, gen: old(w).slots@[e.idx as int].gen };
            assert(old(w).spec_alive(eo));
            assert(false);
        }
    }
    let ghost wb = *w;
    w.insert_transform(e, Transform::from_position(0, 0, 0));
    let ghost wc = *w;
    w.insert_ship(e, Ship { heat: 0 });
    proof {
        assert forall|e2: Entity| old(w).spec_alive(e2) implies w.spec_alive(e2) by {
            assert(wa.spec_alive(e2));
            assert(wb.spec_alive(e2));
            assert(wc.spec_alive(e2));
        }
    }
    e
}

/// Attach one block to a ship: a fresh entity at `position` carrying the
/// block's mesh, a collider from the block's hitbox template in the ship
/// category, the back-reference to the owning ship, and — per the
/// block's setup hook — its gadget component.
pub fn attach_block(w: &mut World, ship: Entity, block: &Block, position: Vec3) -> (r: Entity)
    requires
        old(w).wf(),
        position.in_bounds(COORD_LIMIT as int),
        block.hitbox.wf(),
    ensures
        final(w).wf(),
        final(w).spec_alive(r),
        !old(w).spec_alive(r),
        r.idx < final(w).slots@.len(),
        final(w).slots@[r.idx as int].transform matches Some(t) && t.position == position,
        final(w).slots@[r.idx as int].model == Some(
            Model { mesh_id: block.mesh_id, model_id: None },
        ),
        final(w).slots@[r.idx as int].gadget == Some(GadgetEntity { ship }),
        final(w).slots@[r.idx as int].collider == Some(
            Collider {
                hitbox: block.hitbox,
                category: CATEGORY_SHIP,
                mask: CATEGORY_ASTEROID | CATEGORY_MISSILE,
            },
        ),
        final(w).miners.spec_get(r.idx) is Some <==> block.setup == Some(GadgetKind::Miner),
        final(w).lasers.spec_get(r.idx) is Some <==> block.setup == Some(GadgetKind::Laser),
        final(w).coolers.spec_get(r.idx) is Some <==> block.setup == Some(GadgetKind::Cooler),
        forall|k: usize|
            k != r.idx ==> #[trigger] final(w).miners.spec_get(k) == old(w).miners.spec_get(k)
                && final(w).lasers.spec_get(k) == old(w).lasers.spec_get(k)
                && final(w).coolers.spec_get(k) == old(w).coolers.spec_get(k),
        forall|e: Entity| old(w).spec_alive(e) ==> final(w).spec_alive(e),
        forall|i: int|
            0 <= i < old(w).slots@.len() && old(w).slots@[i].alive ==> final(w).slots@[i] == old(
                w,
            ).slots@[i],
        final(w).missiles == old(w).missiles,
        final(w).asteroids == old(w).asteroids,
        final(w).fields == old(w).fields,
        final(w).utils == old(w).utils,
        final(w).renderer == old(w).renderer,
        final(w).transform_events.cursors@ == old(w).transform_events.cursors@,
        final(w).model_events.cursors@ == old(w).model_events.cursors@,
{
    let ghost wa = *w;
    let e = w.create_entity();
    proof {
        if e.idx < old(w).slots@.len() && old(w).slots@[e.idx as int].alive {
            let eo = Entity { idx: e.idx, gen: old(w).slots@[e.idx as int].gen };
            assert(old(w).spec_alive(eo));
            assert(false);
        }
    }
    let ghost wb = *w;
    w.insert_transform(
        e,
        Transform {
            position,
            rotation: Rotation::Yaw(0),
            scale: Vec3 { x: 1000, y: 1000, z: 1000 },
        },
    );
    let ghost wc = *w;
    w.insert_model(e, Model { mesh_id: block.mesh_id, model_id: None });
    let ghost wd = *w;
    w.insert_gadget(e, GadgetEntity { ship });
    let ghost we = *w;
    w.insert_collider(
        e,
        Collider {
            hitbox: block.hitbox,
            category: CATEGORY_SHIP,
            mask: CATEGORY_ASTEROID | CATEGORY_MISSILE,
        },
    );
    let ghost wf2 = *w;
    match block.setup {
        Some(GadgetKind::Miner) => {
            w.insert_miner(e, Miner { shoot_time: 0 });
        },
        Some(GadgetKind::Laser) => {
            w.insert_laser(e, Laser);
        },
        Some(GadgetKind::Cooler) => {
            w.insert_cooler(e, Cooler);
        },
        None => {},
    }
    proof {
        assert forall|e2: Entity| old(w).spec_alive(e2) implies w.spec_alive(e2) by {
            assert(wa.spec_alive(e2));
            assert(wb.spec_alive(e2));
            assert(wc.spec_alive(e2));
            assert(wd.spec_alive(e2));
            assert(we.spec_alive(e2));
            assert(wf2.spec_alive(e2));
        }
    }
    e
}

} // verus!
