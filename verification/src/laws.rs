//! Cross-cutting guarantees of the simulation, stated and proved over
//! the same specification functions the systems' contracts use: the
//! idempotence of deferred removal, the absence of dangling render
//! handles, the uniqueness of creation calls, the cooler's clamp at
//! zero, and the mining turret's fire period.

use vstd::prelude::*;
use crate::block::{apply_cool, miner_step, COOL_RATE, MINER_TOTAL_TIME};
use crate::components::Miner;
use crate::events::StoreEvent;
use crate::model_sync::{creates_at, creates_before, sync_update_calls, updates_at};
use crate::render::RenderCall;
use crate::world::{flush_calls, flush_release, marked, Entity, Slot, World};

verus! {

/// Marking an entity for removal is idempotent: marking it again in the
/// same tick leaves the queue exactly as it was.
pub proof fn lemma_mark_idempotent(q: Seq<Entity>, e: Entity)
    ensures
        marked(marked(q, e), e) == marked(q, e),
{
    if !q.contains(e) {
        assert(marked(q, e)[q.len() as int] == e);
        assert(marked(q, e).contains(e));
    }
}

/// A duplicate mark causes no extra render-handle release: the flush of
/// the re-marked queue issues exactly the calls of the original queue.
pub proof fn lemma_duplicate_mark_no_extra_release(s: Seq<Slot>, q: Seq<Entity>, e: Entity)
    requires
        q.contains(e),
    ensures
        flush_calls(s, marked(q, e)) == flush_calls(s, q),
{
}

/// A first mark causes exactly one release: the flush of the marked
/// queue issues the original calls plus this entity's single release.
pub proof fn lemma_single_mark_single_release(s: Seq<Slot>, q: Seq<Entity>, e: Entity)
    requires
        !q.contains(e),
    ensures
        flush_calls(s, marked(q, e)) == flush_calls(s, q) + flush_release(s, e),
{
    assert(marked(q, e).drop_last() =~= q);
    assert(marked(q, e).last() == e);
}

/// No entity ever holds a render handle after deletion: in a well-formed
/// world, a dead slot holds no model at all — its handle was released
/// and cleared by the flush before the deletion.
pub proof fn lemma_dead_entities_hold_no_handles(w: World)
    requires
        w.wf(),
    ensures
        forall|i: int|
            0 <= i < w.slots@.len() && !(#[trigger] w.slots@[i]).alive ==> w.slots@[i].model
                is None,
{
}

/// Every update call the sync pass issues names a model that already
/// held that very handle: no update is ever issued for a handle-less
/// model.
pub proof fn lemma_updates_only_with_handles(
    slots1: Seq<Slot>,
    mods: Seq<StoreEvent>,
    i: int,
    c: RenderCall,
)
    requires
        sync_update_calls(slots1, mods, i).contains(c),
    ensures
        exists|j: int|
            0 <= j < i && #[trigger] updates_at(slots1, mods, j) && c == (RenderCall::Update {
                mesh_id: slots1[j].model->Some_0.mesh_id,
                handle: slots1[j].model->Some_0.model_id->Some_0,
                world: slots1[j].transform->Some_0,
            }),
    decreases i,
{
    if i > 0 {
        let pre = sync_update_calls(slots1, mods, i - 1);
        let p = choose|p: int|
            0 <= p < sync_update_calls(slots1, mods, i).len() && sync_update_calls(
                slots1,
                mods,
                i,
            )[p] == c;
        if p < pre.len() {
            assert(pre[p] == c);
            assert(pre.contains(c));
            lemma_updates_only_with_handles(slots1, mods, i - 1, c);
            let j = choose|j: int|
                0 <= j < i - 1 && #[trigger] updates_at(slots1, mods, j) && c
                    == (RenderCall::Update {
                    mesh_id: slots1[j].model->Some_0.mesh_id,
                    handle: slots1[j].model->Some_0.model_id->Some_0,
                    world: slots1[j].transform->Some_0,
                });
            assert(0 <= j < i && updates_at(slots1, mods, j));
        } else {
            assert(updates_at(slots1, mods, i - 1));
            assert(c == (RenderCall::Update {
                mesh_id: slots1[i - 1].model->Some_0.mesh_id,
                handle: slots1[i - 1].model->Some_0.model_id->Some_0,
                world: slots1[i - 1].transform->Some_0,
            }));
        }
    }
}

proof fn lemma_creates_before_mono(slots: Seq<Slot>, ins: Seq<StoreEvent>, i1: int, i2: int)
    requires
        i1 <= i2,
    ensures
        creates_before(slots, ins, i1) <= creates_before(slots, ins, i2),
    decreases i2 - i1,
{
    if i1 < i2 {
        lemma_creates_before_mono(slots, ins, i1, i2 - 1);
    }
}

proof fn lemma_creates_before_bound(slots: Seq<Slot>, ins: Seq<StoreEvent>, i: int)
    ensures
        creates_before(slots, ins, i) <= if i <= 0 {
            0int
        } else {
            i
        },
        0 <= creates_before(slots, ins, i),
    decreases i,
{
    if i > 0 {
        lemma_creates_before_bound(slots, ins, i - 1);
    }
}

/// Exactly one creation per (entity, insertion-event): two distinct
/// slots created in the same sync pass receive distinct handles, so each
/// creation call is that slot's own.
pub proof fn lemma_one_creation_per_slot(
    slots: Seq<Slot>,
    ins: Seq<StoreEvent>,
    base: int,
    i1: int,
    i2: int,
)
    requires
        creates_at(slots, ins, i1),
        creates_at(slots, ins, i2),
        i1 < i2,
        0 <= base,
        base + slots.len() <= u64::MAX,
    ensures
        (base + creates_before(slots, ins, i1)) as u64 != (base + creates_before(
            slots,
            ins,
            i2,
        )) as u64,
{
    lemma_creates_before_mono(slots, ins, i1 + 1, i2);
    lemma_creates_before_bound(slots, ins, i1);
    lemma_creates_before_bound(slots, ins, i2);
    assert(creates_before(slots, ins, i1 + 1) == creates_before(slots, ins, i1) + 1);
    assert(i2 <= slots.len());
}

/// The cooler never drives a ship's heat below zero: the cooled ship's
/// new heat is exactly the old heat less the cooling rate, floored at
/// zero.
pub proof fn lemma_cooler_clamps(slots: Seq<Slot>, k: usize)
    requires
        k < slots.len(),
        slots[k as int].gadget is Some,
        ({
            let ship_e = slots[k as int].gadget->Some_0.ship;
            &&& ship_e.idx < slots.len()
            &&& slots[ship_e.idx as int].alive
            &&& slots[ship_e.idx as int].gen == ship_e.gen
            &&& slots[ship_e.idx as int].ship is Some
        }),
    ensures
        ({
            let ship_e = slots[k as int].gadget->Some_0.ship;
            let h = slots[ship_e.idx as int].ship->Some_0.heat;
            let h2 = apply_cool(slots, k)[ship_e.idx as int].ship->Some_0.heat;
            h2 == if h < COOL_RATE {
                0u64
            } else {
                (h - COOL_RATE) as u64
            }
        }),
{
}

/// The miner state after a run of ticks, given each tick's commanded
/// flag.
pub open spec fn miner_run(c0: Miner, cmds: Seq<bool>) -> Miner
    decreases cmds.len(),
{
    if cmds.len() == 0 {
        c0
    } else {
        miner_step(miner_run(c0, cmds.drop_last()), cmds.last()).0
    }
}

/// The turret fires on tick `k` of the run.
pub open spec fn miner_fired_at(c0: Miner, cmds: Seq<bool>, k: int) -> bool {
    miner_step(miner_run(c0, cmds.take(k)), cmds[k]).1
}

/// The turret never fires without being commanded (and the command
/// carries a designated target).
pub proof fn lemma_miner_fires_only_commanded(m: Miner, commanded: bool)
    ensures
        miner_step(m, commanded).1 ==> commanded,
{
}

proof fn lemma_miner_counter(c0: Miner, cmds: Seq<bool>, i: int, t: int)
    requires
        0 <= i < cmds.len(),
        miner_fired_at(c0, cmds, i),
        0 <= t,
        i + 1 + t <= cmds.len(),
    ensures
        miner_run(c0, cmds.take(i + 1 + t)).shoot_time <= t,
    decreases t,
{
    if t == 0 {
        assert(cmds.take(i + 1).drop_last() =~= cmds.take(i));
        assert(cmds.take(i + 1).last() == cmds[i]);
    } else {
        lemma_miner_counter(c0, cmds, i, t - 1);
        assert(cmds.take(i + 1 + t).drop_last() =~= cmds.take(i + t));
        assert(cmds.take(i + 1 + t).last() == cmds[i + t]);
    }
}

/// The turret fires at most once per charge period: two fires in one
/// run are always more than the full charge time apart, however the
/// commands fall.
pub proof fn lemma_miner_fire_separation(c0: Miner, cmds: Seq<bool>, i: int, j: int)
    requires
        0 <= i < j < cmds.len(),
        miner_fired_at(c0, cmds, i),
        miner_fired_at(c0, cmds, j),
    ensures
        j - i > MINER_TOTAL_TIME,
{
    if j - i <= MINER_TOTAL_TIME {
        lemma_miner_counter(c0, cmds, i, j - 1 - i);
        assert(miner_run(c0, cmds.take(j)).shoot_time <= j - 1 - i);
        assert(false);
    }
}

} // verus!
