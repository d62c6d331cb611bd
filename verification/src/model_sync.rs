//! Render-resource synchronization: drains the model-insertion and
//! transform-modification event streams and pushes the matching create
//! and update calls into the render-call log, keeping each model's
//! handle consistent with simulation state.
//!
//! The insertion pass runs strictly before the modification pass, so an
//! entity created this tick receives its first placement without waiting
//! a tick. An entity whose model holds no handle is never updated: it is
//! skipped until some later insertion pass gives it one. Each entity
//! with a pending insertion receives exactly one creation call, however
//! many insertion events the stream carried for it.

use vstd::prelude::*;
use crate::components::{Model, Transform};
use crate::events::StoreEvent;
use crate::render::RenderCall;
use crate::world::{Slot, World};

verus! {

/// Some drained event inserts a model at slot `i`.
pub open spec fn has_inserted(evts: Seq<StoreEvent>, i: usize) -> bool {
    exists|k: int| 0 <= k < evts.len() && evts[k] == StoreEvent::Inserted(i)
}

/// Some drained event modifies the transform at slot `i`.
pub open spec fn has_modified(evts: Seq<StoreEvent>, i: usize) -> bool {
    exists|k: int| 0 <= k < evts.len() && evts[k] == StoreEvent::Modified(i)
}

/// The insertion pass creates a handle for slot `i`: a model insertion
/// was drained and the slot is live with both a model and a transform.
pub open spec fn creates_at(slots: Seq<Slot>, ins: Seq<StoreEvent>, i: int) -> bool {
    &&& 0 <= i < slots.len()
    &&& has_inserted(ins, i as usize)
    &&& slots[i].alive
    &&& slots[i].model is Some
    &&& slots[i].transform is Some
}

/// How many creations the insertion pass performs before slot `i`.
pub open spec fn creates_before(slots: Seq<Slot>, ins: Seq<StoreEvent>, i: int) -> int
    decreases i,
{
    if i <= 0 {
        0
    } else {
        creates_before(slots, ins, i - 1) + if creates_at(slots, ins, i - 1) {
            1int
        } else {
            0int
        }
    }
}

/// The creation calls of the insertion pass over the first `i` slots, in
/// slot order; handles continue the call log from length `base`.
pub open spec fn sync_create_calls(
    slots: Seq<Slot>,
    ins: Seq<StoreEvent>,
    base: int,
    i: int,
) -> Seq<RenderCall>
    decreases i,
{
    if i <= 0 {
        Seq::empty()
    } else {
        sync_create_calls(slots, ins, base, i - 1) + if creates_at(slots, ins, i - 1) {
            seq![
                RenderCall::Create {
                    mesh_id: slots[i - 1].model->Some_0.mesh_id,
                    handle: (base + creates_before(slots, ins, i - 1)) as u64,
                    world: slots[i - 1].transform->Some_0,
                },
            ]
        } else {
            Seq::empty()
        }
    }
}

/// The slot contents after the insertion pass: created slots carry their
/// fresh handle, all others are untouched.
pub open spec fn slot_after_creates(
    slots: Seq<Slot>,
    ins: Seq<StoreEvent>,
    base: int,
    i: int,
) -> Slot {
    if creates_at(slots, ins, i) {
        Slot {
            model: Some(
                Model {
                    mesh_id: slots[i].model->Some_0.mesh_id,
                    model_id: Some((base + creates_before(slots, ins, i)) as u64),
                },
            ),
            ..slots[i]
        }
    } else {
        slots[i]
    }
}

/// The modification pass updates slot `i`: a transform modification was
/// drained and the (post-insertion-pass) slot is live with a model that
/// already holds a handle and a transform.
pub open spec fn updates_at(slots1: Seq<Slot>, mods: Seq<StoreEvent>, i: int) -> bool {
    &&& 0 <= i < slots1.len()
    &&& has_modified(mods, i as usize)
    &&& slots1[i].alive
    &&& slots1[i].model is Some
    &&& slots1[i].model->Some_0.model_id is Some
    &&& slots1[i].transform is Some
}

/// The update calls of the modification pass over the first `i` slots,
/// in slot order.
pub open spec fn sync_update_calls(slots1: Seq<Slot>, mods: Seq<StoreEvent>, i: int) -> Seq<
    RenderCall,
>
    decreases i,
{
    if i <= 0 {
        Seq::empty()
    } else {
        sync_update_calls(slots1, mods, i - 1) + if updates_at(slots1, mods, i - 1) {
            seq![
                RenderCall::Update {
                    mesh_id: slots1[i - 1].model->Some_0.mesh_id,
                    handle: slots1[i - 1].model->Some_0.model_id->Some_0,
                    world: slots1[i - 1].transform->Some_0,
                },
            ]
        } else {
            Seq::empty()
        }
    }
}

/// The creation calls number exactly the creations.
proof fn lemma_create_calls_len(slots: Seq<Slot>, ins: Seq<StoreEvent>, base: int, i: int)
    ensures
        sync_create_calls(slots, ins, base, i).len() == if i <= 0 {
            0int
        } else {
            creates_before(slots, ins, i)
        },
    decreases i,
{
    if i > 0 {
        lemma_create_calls_len(slots, ins, base, i - 1);
    }
}

/// The model-sync system: its two read cursors into the change streams.
pub struct ModelUpdateSystem {
    pub transform_reader: usize,
    pub model_reader: usize,
}

impl ModelUpdateSystem {
    /// Subscribe the two readers this system drains each tick.
    pub fn new(w: &mut World) -> (r: ModelUpdateSystem)
        requires
            old(w).wf(),
        ensures
            final(w).wf(),
            r.transform_reader < final(w).transform_events.cursors@.len(),
            r.model_reader < final(w).model_events.cursors@.len(),
            final(w).slots == old(w).slots,
            final(w).transform_events.events@ == old(w).transform_events.events@,
            final(w).model_events.events@ == old(w).model_events.events@,
            crate::world::same_aux(*old(w), *final(w)),
    {
        let transform_reader = w.register_transform_reader();
        let model_reader = w.register_model_reader();
        ModelUpdateSystem { transform_reader, model_reader }
    }

    /// One synchronization pass. With `ins` the drained model events,
    /// `mods` the drained transform events, `base` the render-call log
    /// length on entry and `slots1` the slots as the insertion pass
    /// leaves them: the call log grows by exactly the creation calls (in
    /// slot order) followed by the update calls (in slot order), every
    /// created slot's model carries its fresh handle, and nothing else
    /// changes.
    pub fn run(&self, w: &mut World)
        requires
            old(w).wf(),
            self.transform_reader < old(w).transform_events.cursors@.len(),
            self.model_reader < old(w).model_events.cursors@.len(),
        ensures
            final(w).wf(),
            ({
                let ins = old(w).model_events.events@.subrange(
                    old(w).model_events.cursors@[self.model_reader as int] as int,
                    old(w).model_events.events@.len() as int,
                );
                let mods = old(w).transform_events.events@.subrange(
                    old(w).transform_events.cursors@[self.transform_reader as int] as int,
                    old(w).transform_events.events@.len() as int,
                );
                let base = old(w).renderer.calls@.len() as int;
                let n = old(w).slots@.len() as int;
                &&& final(w).slots@.len() == n
                &&& forall|i: int|
                    0 <= i < n ==> final(w).slots@[i] == slot_after_creates(
                        old(w).slots@,
                        ins,
                        base,
                        i,
                    )
                &&& final(w).renderer.calls@ == old(w).renderer.calls@ + sync_create_calls(
                    old(w).slots@,
                    ins,
                    base,
                    n,
                ) + sync_update_calls(final(w).slots@, mods, n)
                &&& final(w).transform_events.events@ == old(w).transform_events.events@
                &&& final(w).model_events.events@ == old(w).model_events.events@
                &&& final(w).transform_events.cursors@ == old(
                    w,
                ).transform_events.cursors@.update(
                    self.transform_reader as int,
                    old(w).transform_events.events@.len() as usize,
                )
                &&& final(w).model_events.cursors@ == old(w).model_events.cursors@.update(
                    self.model_reader as int,
                    old(w).model_events.events@.len() as usize,
                )
                &&& final(w).free == old(w).free
                &&& crate::world::same_sparse(*old(w), *final(w))
                &&& final(w).utils == old(w).utils
            }),
    {
        let ghost s0 = old(w).slots@;
        let ins_evts = w.read_model_events(self.model_reader);
        let mods_evts = w.read_transform_events(self.transform_reader);
        let ghost ins = ins_evts@;
        let ghost mods = mods_evts@;
        let ghost base = old(w).renderer.calls@.len() as int;
        let n = w.slots.len();

        // mark the slots named by the drained events
        let mut ins_mask: Vec<bool> = Vec::new();
        let mut mod_mask: Vec<bool> = Vec::new();
        let mut i: usize = 0;
        while i < n
            invariant
                i <= n,
                ins_mask@.len() == i,
                mod_mask@.len() == i,
                forall|j: int| 0 <= j < i ==> !ins_mask@[j] && !mod_mask@[j],
            decreases n - i,
        {
            ins_mask.push(false);
            mod_mask.push(false);
            i += 1;
        }
        let m = ins_evts.len();
        let mut k: usize = 0;
        while k < m
            invariant
                k <= m == ins.len(),
                ins_evts@ == ins,
                ins_mask@.len() == n,
                forall|j: int|
                    0 <= j < n ==> ins_mask@[j] == has_inserted(ins.take(k as int), j as usize),
            decreases m - k,
        {
            proof {
                assert(ins.take(k + 1).drop_last() =~= ins.take(k as int));
                assert(ins.take(k + 1).last() == ins[k as int]);
            }
            let ev = ins_evts[k];
            match ev {
                StoreEvent::Inserted(idx) => {
                    if idx < n {
                        ins_mask[idx] = true;
                    }
                    proof {
                        assert forall|j: int| 0 <= j < n implies ins_mask@[j] == has_inserted(
                            ins.take(k + 1),
                            j as usize,
                        ) by {
                            if j == idx {
                                assert(ins.take(k + 1)[k as int] == StoreEvent::Inserted(idx));
                            } else {
                                if has_inserted(ins.take(k + 1), j as usize) {
                                    let k2 = choose|k2: int|
                                        0 <= k2 < ins.take(k + 1).len() && #[trigger] ins.take(k + 1)[k2]
                                            == StoreEvent::Inserted(j as usize);
                                    assert(k2 < k);
                                    assert(ins.take(k as int)[k2] == StoreEvent::Inserted(
                                        j as usize,
                                    ));
                                }
                                if has_inserted(ins.take(k as int), j as usize) {
                                    let k2 = choose|k2: int|
                                        0 <= k2 < ins.take(k as int).len() && #[trigger] ins.take(
                                            k as int,
                                        )[k2] == StoreEvent::Inserted(j as usize);
                                    assert(ins.take(k + 1)[k2] == StoreEvent::Inserted(
                                        j as usize,
                                    ));
                                }
                            }
                        }
                    }
                },
                _ => {
                    proof {
                        assert forall|j: int| 0 <= j < n implies ins_mask@[j] == has_inserted(
                            ins.take(k + 1),
                            j as usize,
                        ) by {
                            if has_inserted(ins.take(k + 1), j as usize) {
                                let k2 = choose|k2: int|
                                    0 <= k2 < ins.take(k + 1).len() && #[trigger] ins.take(k + 1)[k2]
                                        == StoreEvent::Inserted(j as usize);
                                assert(k2 < k);
                                assert(ins.take(k as int)[k2] == StoreEvent::Inserted(j as usize));
                            }
                            if has_inserted(ins.take(k as int), j as usize) {
                                let k2 = choose|k2: int|
                                    0 <= k2 < ins.take(k as int).len() && #[trigger] ins.take(k as int)[k2]
                                        == StoreEvent::Inserted(j as usize);
                                assert(ins.take(k + 1)[k2] == StoreEvent::Inserted(j as usize));
                            }
                        }
                    }
                },
            }
            k += 1;
        }
        proof {
            assert(ins.take(m as int) =~= ins);
            // events at indices of slots that exist carry indices < n is not
            // needed: the mask is simply false beyond every marked index
        }
        let m2 = mods_evts.len();
        let mut k2i: usize = 0;
        while k2i < m2
            invariant
                k2i <= m2 == mods.len(),
                mods_evts@ == mods,
                mod_mask@.len() == n,
                forall|j: int|
                    0 <= j < n ==> mod_mask@[j] == has_modified(mods.take(k2i as int), j as usize),
            decreases m2 - k2i,
        {
            proof {
                assert(mods.take(k2i + 1).drop_last() =~= mods.take(k2i as int));
                assert(mods.take(k2i + 1).last() == mods[k2i as int]);
            }
            let ev = mods_evts[k2i];
            match ev {
                StoreEvent::Modified(idx) => {
                    if idx < n {
                        mod_mask[idx] = true;
                    }
                    proof {
                        assert forall|j: int| 0 <= j < n implies mod_mask@[j] == has_modified(
                            mods.take(k2i + 1),
                            j as usize,
                        ) by {
                            if j == idx {
                                assert(mods.take(k2i + 1)[k2i as int] == StoreEvent::Modified(
                                    idx,
                                ));
                            } else {
                                if has_modified(mods.take(k2i + 1), j as usize) {
                                    let k2 = choose|k2: int|
                                        0 <= k2 < mods.take(k2i + 1).len() && #[trigger] mods.take(
                                            k2i + 1,
                                        )[k2] == StoreEvent::Modified(j as usize);
                                    assert(k2 < k2i);
                                    assert(mods.take(k2i as int)[k2] == StoreEvent::Modified(
                                        j as usize,
                                    ));
                                }
                                if has_modified(mods.take(k2i as int), j as usize) {
                                    let k2 = choose|k2: int|
                                        0 <= k2 < mods.take(k2i as int).len() && #[trigger] mods.take(
                                            k2i as int,
                                        )[k2] == StoreEvent::Modified(j as usize);
                                    assert(mods.take(k2i + 1)[k2] == StoreEvent::Modified(
                                        j as usize,
                                    ));
                                }
                            }
                        }
                    }
                },
                _ => {
                    proof {
                        assert forall|j: int| 0 <= j < n implies mod_mask@[j] == has_modified(
                            mods.take(k2i + 1),
                            j as usize,
                        ) by {
                            if has_modified(mods.take(k2i + 1), j as usize) {
                                let k2 = choose|k2: int|
                                    0 <= k2 < mods.take(k2i + 1).len() && #[trigger] mods.take(k2i + 1)[k2]
                                        == StoreEvent::Modified(j as usize);
                                assert(k2 < k2i);
                                assert(mods.take(k2i as int)[k2] == StoreEvent::Modified(
                                    j as usize,
                                ));
                            }
                            if has_modified(mods.take(k2i as int), j as usize) {
                                let k2 = choose|k2: int|
                                    0 <= k2 < mods.take(k2i as int).len() && mods.take(
                                        k2i as int,
                                    )[k2] == StoreEvent::Modified(j as usize);
                                assert(mods.take(k2i + 1)[k2] == StoreEvent::Modified(j as usize));
                            }
                        }
                    }
                },
            }
            k2i += 1;
        }
        proof {
            assert(mods.take(m2 as int) =~= mods);
        }

        // insertion pass: one creation per pending insertion
        let ghost w1 = *w;
        let mut i1: usize = 0;
        while i1 < n
            invariant
                w.wf(),
                i1 <= n == s0.len(),
                w.slots@.len() == n,
                ins_mask@.len() == n,
                forall|j: int| 0 <= j < n ==> ins_mask@[j] == has_inserted(ins, j as usize),
                forall|j: int|
                    0 <= j < i1 ==> w.slots@[j] == slot_after_creates(s0, ins, base, j),
                forall|j: int| i1 <= j < n ==> w.slots@[j] == s0[j],
                w.renderer.calls@ == w1.renderer.calls@ + sync_create_calls(
                    s0,
                    ins,
                    base,
                    i1 as int,
                ),
                w1.renderer.calls@.len() == base,
                w.transform_events == w1.transform_events,
                w.model_events == w1.model_events,
                w.free == w1.free,
                crate::world::same_sparse(w1, *w),
                w.utils == w1.utils,
            decreases n - i1,
        {
            proof {
                lemma_create_calls_len(s0, ins, base, i1 as int);
            }
            let s = w.slots[i1];
            let mut did: bool = false;
            if ins_mask[i1] && s.alive && s.model.is_some() && s.transform.is_some() {
                let model = s.model.unwrap();
                let t = s.transform.unwrap();
                let h = w.renderer.new_model(model.mesh_id, t);
                w.set_model_id(i1, Some(h));
                did = true;
            }
            proof {
                assert(creates_at(s0, ins, i1 as int) == did);
                assert(w.renderer.calls@ =~= w1.renderer.calls@ + sync_create_calls(
                    s0,
                    ins,
                    base,
                    i1 + 1,
                ));
                assert(w.slots@[i1 as int] == slot_after_creates(s0, ins, base, i1 as int));
            }
            i1 += 1;
        }
        let ghost slots1 = w.slots@;
        let ghost creates_full = sync_create_calls(s0, ins, base, n as int);

        // modification pass: updates only for models that hold a handle
        let mut i2: usize = 0;
        while i2 < n
            invariant
                w.wf(),
                i2 <= n,
                w.slots@ == slots1,
                slots1.len() == n,
                mod_mask@.len() == n,
                forall|j: int| 0 <= j < n ==> mod_mask@[j] == has_modified(mods, j as usize),
                w.renderer.calls@ == w1.renderer.calls@ + creates_full + sync_update_calls(
                    slots1,
                    mods,
                    i2 as int,
                ),
                w.transform_events == w1.transform_events,
                w.model_events == w1.model_events,
                w.free == w1.free,
                crate::world::same_sparse(w1, *w),
                w.utils == w1.utils,
            decreases n - i2,
        {
            let s = w.slots[i2];
            if mod_mask[i2] && s.alive && s.model.is_some() && s.transform.is_some() {
                let model = s.model.unwrap();
                match model.model_id {
                    Some(h) => {
                        let t = s.transform.unwrap();
                        w.renderer.update_model(model.mesh_id, h, t);
                        proof {
                            assert(w.renderer.calls@ =~= w1.renderer.calls@ + creates_full
                                + sync_update_calls(slots1, mods, i2 + 1));
                        }
                    },
                    None => {
                        proof {
                            assert(!updates_at(slots1, mods, i2 as int));
                            assert(w.renderer.calls@ =~= w1.renderer.calls@ + creates_full
                                + sync_update_calls(slots1, mods, i2 + 1));
                        }
                    },
                }
            } else {
                proof {
                    assert(!updates_at(slots1, mods, i2 as int));
                    assert(w.renderer.calls@ =~= w1.renderer.calls@ + creates_full
                        + sync_update_calls(slots1, mods, i2 + 1));
                }
            }
            i2 += 1;
        }
    }
}

} // verus!
