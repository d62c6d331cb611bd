//! The system scheduler: systems declare "runs-after" edges, and the
//! dispatcher builder resolves them once, at startup, into a fixed
//! execution order — a topological order with ties broken by
//! declaration order, so the schedule is deterministic. A tick then
//! executes that order synchronously; no system is ever skipped.

use vstd::prelude::*;

verus! {

/// The systems a tick can schedule.
#[derive(Clone, Copy, Debug, PartialEq, Eq, Structural)]
pub enum SystemId {
    Physics,
    Miner,
    Laser,
    Cooler,
    ModelSync,
    FieldSpawner,
}

/// A declared ordering constraint: `sys` runs after `dep`.
#[derive(Clone, Copy, Debug, PartialEq, Eq, Structural)]
pub struct AfterEdge {
    pub sys: SystemId,
    pub dep: SystemId,
}

/// `order` lays out exactly the declared systems, each once, and every
/// declared edge has its dependency standing earlier than its system.
pub open spec fn valid_order(entries: Seq<SystemId>, after: Seq<AfterEdge>, order: Seq<
    SystemId,
>) -> bool {
    &&& order.len() == entries.len()
    &&& forall|i: int| 0 <= i < entries.len() ==> order.contains(#[trigger] entries[i])
    &&& forall|i: int| 0 <= i < order.len() ==> entries.contains(#[trigger] order[i])
    &&& forall|i: int, j: int| 0 <= i < j < order.len() ==> order[i] != order[j]
    &&& forall|k: int, i: int, j: int|
        0 <= k < after.len() && 0 <= i < order.len() && 0 <= j < order.len() && #[trigger] order[i]
            == after[k].sys && #[trigger] order[j] == (#[trigger] after[k]).dep && order[i]
            != order[j] ==> j < i
}

/// Builds the dispatch order from declared systems and edges.
pub struct DispatcherBuilder {
    pub entries: Vec<SystemId>,
    pub after: Vec<AfterEdge>,
}

impl DispatcherBuilder {
    pub fn new() -> (r: DispatcherBuilder)
        ensures
            r.entries@.len() == 0,
            r.after@.len() == 0,
    {
        DispatcherBuilder { entries: Vec::new(), after: Vec::new() }
    }

    /// Declare a system, to run after each of `deps`.
    pub fn add(&mut self, sys: SystemId, deps: Vec<SystemId>)
        ensures
            final(self).entries@ == old(self).entries@.push(sys),
            final(self).after@.len() == old(self).after@.len() + deps@.len(),
            forall|k: int|
                0 <= k < old(self).after@.len() ==> #[trigger] final(self).after@[k] == old(
                    self,
                ).after@[k],
            forall|k: int|
                0 <= k < deps@.len() ==> #[trigger] final(self).after@[old(self).after@.len() + k]
                    == (AfterEdge { sys, dep: deps@[k] }),
    {
        self.entries.push(sys);
        let nd = deps.len();
        let mut k: usize = 0;
        while k < nd
            invariant
                k <= nd == deps@.len(),
                self.entries@ == old(self).entries@.push(sys),
                self.after@.len() == old(self).after@.len() + k,
                forall|m: int|
                    0 <= m < old(self).after@.len() ==> #[trigger] self.after@[m] == old(
                        self,
                    ).after@[m],
                forall|m: int|
                    0 <= m < k ==> #[trigger] self.after@[old(self).after@.len() + m]
                        == (AfterEdge { sys, dep: deps@[m] }),
            decreases nd - k,
        {
            self.after.push(AfterEdge { sys, dep: deps[k] });
            k += 1;
        }
    }

    /// Resolve the declared edges into a deterministic topological
    /// order: repeatedly place the earliest-declared unplaced system
    /// whose dependencies are all placed (an edge naming an undeclared
    /// dependency is ignored; a system depending on itself blocks).
    /// On failure the unplaceable remainder comes back: a nonempty set
    /// of declared systems, each waiting on a member of that very
    /// remainder — a dependency cycle, the one condition under which no
    /// schedule exists.
    pub fn build(&self) -> (r: Result<Vec<SystemId>, Vec<SystemId>>)
        requires
            forall|i: int, j: int|
                0 <= i < j < self.entries@.len() ==> self.entries@[i] != self.entries@[j],
        ensures
            match r {
                Ok(order) => valid_order(self.entries@, self.after@, order@),
                Err(rest) => {
                    &&& rest@.len() > 0
                    &&& forall|i: int|
                        0 <= i < rest@.len() ==> self.entries@.contains(#[trigger] rest@[i])
                    &&& forall|i: int|
                        0 <= i < rest@.len() ==> exists|k: int|
                            0 <= k < self.after@.len() && (#[trigger] self.after@[k]).sys == (
                            #[trigger] rest@[i]) && rest@.contains(self.after@[k].dep)
                },
            },
    {
        let n = self.entries.len();
        let mut order: Vec<SystemId> = Vec::new();
        let mut placed: Vec<bool> = Vec::new();
        let mut i: usize = 0;
        while i < n
            invariant
                i <= n,
                placed@.len() == i,
                forall|m: int| 0 <= m < i ==> !placed@[m],
            decreases n - i,
        {
            placed.push(false);
            i += 1;
        }
        proof {
            lemma_count_none(placed@);
        }
        let mut stuck = false;
        let mut rounds: usize = 0;
        while rounds < n
            invariant
                rounds <= n,
                n == self.entries@.len(),
                placed@.len() == n,
                order@.len() == count_trues(placed@),
                order@.len() <= n,
                forall|i2: int, j2: int|
                    0 <= i2 < j2 < self.entries@.len() ==> self.entries@[i2] != self.entries@[j2],
                forall|m: int|
                    0 <= m < n && placed@[m] ==> order@.contains(#[trigger] self.entries@[m]),
                forall|p: int|
                    0 <= p < order@.len() ==> self.entries@.contains(#[trigger] order@[p]),
                forall|p: int, q: int| 0 <= p < q < order@.len() ==> order@[p] != order@[q],
                forall|m: int|
                    0 <= m < n && !placed@[m] ==> !order@.contains(#[trigger] self.entries@[m]),
                // closedness: a placed system's declared, distinct
                // dependencies are placed too
                forall|k: int|
                    0 <= k < self.after@.len() && order@.contains((#[trigger] self.after@[k]).sys)
                        && self.entries@.contains(self.after@[k].dep) && self.after@[k].dep
                        != self.after@[k].sys ==> order@.contains(self.after@[k].dep),
                forall|k: int, p: int, q: int|
                    0 <= k < self.after@.len() && 0 <= p < order@.len() && 0 <= q < order@.len()
                        && #[trigger] order@[p] == self.after@[k].sys && #[trigger] order@[q] == (
                    #[trigger] self.after@[k]).dep && order@[p] != order@[q] ==> q < p,
                // a round that places nothing is a fixpoint: every
                // unplaced system is blocked on an unplaced dependency
                stuck ==> stuck_state(self.entries@, self.after@, placed@, order@),
                !stuck ==> order@.len() >= rounds,
            decreases n - rounds,
        {
            if !stuck {
                let ghost order_r0 = order@;
                let ghost placed_r0 = placed@;
                let mut progressed = false;
                let mut m: usize = 0;
                while m < n
                    invariant
                        m <= n == self.entries@.len(),
                        placed@.len() == n,
                        order@.len() == count_trues(placed@),
                        order@.len() <= n,
                        forall|i2: int, j2: int|
                            0 <= i2 < j2 < self.entries@.len() ==> self.entries@[i2]
                                != self.entries@[j2],
                        forall|m2: int|
                            0 <= m2 < n && placed@[m2] ==> order@.contains(
                                #[trigger] self.entries@[m2],
                            ),
                        forall|p: int|
                            0 <= p < order@.len() ==> self.entries@.contains(
                                #[trigger] order@[p],
                            ),
                        forall|p: int, q: int|
                            0 <= p < q < order@.len() ==> order@[p] != order@[q],
                        forall|m2: int|
                            0 <= m2 < n && !placed@[m2] ==> !order@.contains(
                                #[trigger] self.entries@[m2],
                            ),
                        forall|k: int|
                            0 <= k < self.after@.len() && order@.contains(
                                (#[trigger] self.after@[k]).sys,
                            ) && self.entries@.contains(self.after@[k].dep) && self.after@[k].dep
                                != self.after@[k].sys ==> order@.contains(self.after@[k].dep),
                        forall|k: int, p: int, q: int|
                            0 <= k < self.after@.len() && 0 <= p < order@.len() && 0 <= q
                                < order@.len() && #[trigger] order@[p] == self.after@[k].sys
                                && #[trigger] order@[q] == (#[trigger] self.after@[k]).dep
                                && order@[p] != order@[q] ==> q < p,
                        !progressed ==> order@ == order_r0 && placed@ == placed_r0,
                        progressed ==> order@.len() >= order_r0.len() + 1,
                        !progressed ==> forall|m2: int|
                            0 <= m2 < m && !placed@[m2] ==> stuck_witness(
                                self.entries@,
                                self.after@,
                                order@,
                                m2,
                            ),
                    decreases n - m,
                {
                    if !placed[m] {
                        let sys = self.entries[m];
                        let ne = self.after.len();
                        let mut ok = true;
                        let mut k: usize = 0;
                        while k < ne
                            invariant
                                k <= ne == self.after@.len(),
                                m < n == self.entries@.len(),
                                sys == self.entries@[m as int],
                                ok ==> forall|k2: int|
                                    0 <= k2 < k && (#[trigger] self.after@[k2]).sys == sys ==> (
                                    self.after@[k2].dep != sys && (self.entries@.contains(
                                        self.after@[k2].dep,
                                    ) ==> order@.contains(self.after@[k2].dep))),
                                !ok ==> stuck_witness(
                                    self.entries@,
                                    self.after@,
                                    order@,
                                    m as int,
                                ),
                            decreases ne - k,
                        {
                            let edge = self.after[k];
                            if edge.sys == sys {
                                if edge.dep == sys {
                                    ok = false;
                                    proof {
                                        assert((#[trigger] self.after@[k as int]).sys
                                            == self.entries@[m as int] && self.after@[k as int].dep
                                            == self.entries@[m as int]);
                                        assert(stuck_witness(
                                            self.entries@,
                                            self.after@,
                                            order@,
                                            m as int,
                                        ));
                                    }
                                } else if contains_sys(&self.entries, edge.dep) {
                                    if !contains_sys(&order, edge.dep) {
                                        ok = false;
                                        proof {
                                            assert((#[trigger] self.after@[k as int]).sys
                                                == self.entries@[m as int]
                                                && self.entries@.contains(
                                                self.after@[k as int].dep,
                                            ) && !order@.contains(self.after@[k as int].dep));
                                            assert(stuck_witness(
                                                self.entries@,
                                                self.after@,
                                                order@,
                                                m as int,
                                            ));
                                        }
                                    }
                                }
                            }
                            k += 1;
                        }
                        if ok {
                            let ghost order0 = order@;
                            let ghost placed0 = placed@;
                            order.push(sys);
                            placed[m] = true;
                            progressed = true;
                            proof {
                                lemma_count_update_true(placed0, m as int);
                                lemma_count_le_len(placed@);
                                assert(order@[order@.len() - 1] == self.entries@[m as int]);
                                assert(order@.contains(self.entries@[m as int]));
                                assert forall|p: int|
                                    0 <= p < order@.len() implies self.entries@.contains(
                                    #[trigger] order@[p],
                                ) by {
                                    if p < order@.len() - 1 {
                                        assert(order0[p] == order@[p]);
                                    } else {
                                        assert(order@[p] == self.entries@[m as int]);
                                    }
                                }
                                assert forall|m2: int|
                                    0 <= m2 < n && placed@[m2] implies order@.contains(
                                    #[trigger] self.entries@[m2],
                                ) by {
                                    if m2 != m {
                                        let p2 = choose|p2: int|
                                            0 <= p2 < order0.len() && order0[p2]
                                                == self.entries@[m2];
                                        assert(order@[p2] == self.entries@[m2]);
                                    }
                                }
                                assert forall|m2: int|
                                    0 <= m2 < n && !placed@[m2] implies !order@.contains(
                                    #[trigger] self.entries@[m2],
                                ) by {
                                    if order@.contains(self.entries@[m2]) {
                                        let p2 = choose|p2: int|
                                            0 <= p2 < order@.len() && order@[p2]
                                                == self.entries@[m2];
                                        if p2 < order@.len() - 1 {
                                            assert(order0[p2] == self.entries@[m2]);
                                            assert(order0.contains(self.entries@[m2]));
                                        } else {
                                            assert(self.entries@[m2] == self.entries@[m as int]);
                                            assert(m2 == m);
                                        }
                                    }
                                }
                                assert forall|p: int, q: int|
                                    0 <= p < q < order@.len() implies order@[p] != order@[q] by {
                                    if q == order@.len() - 1 {
                                        assert(!order0.contains(self.entries@[m as int]));
                                        assert(order0[p] == order@[p]);
                                        assert(order0.contains(order0[p]));
                                    }
                                }
                                assert forall|k2: int|
                                    0 <= k2 < self.after@.len() && order@.contains(
                                        (#[trigger] self.after@[k2]).sys,
                                    ) && self.entries@.contains(self.after@[k2].dep)
                                        && self.after@[k2].dep != self.after@[k2].sys implies
                                    order@.contains(self.after@[k2].dep) by {
                                    if order0.contains(self.after@[k2].sys) {
                                        assert(order0.contains(self.after@[k2].dep));
                                        let p2 = choose|p2: int|
                                            0 <= p2 < order0.len() && order0[p2]
                                                == self.after@[k2].dep;
                                        assert(order@[p2] == self.after@[k2].dep);
                                    } else {
                                        // the placed system is the new one:
                                        // its declared, distinct dependencies
                                        // were just checked to be in the order
                                        let p2 = choose|p2: int|
                                            0 <= p2 < order@.len() && order@[p2]
                                                == self.after@[k2].sys;
                                        assert(p2 == order@.len() - 1);
                                        assert(self.after@[k2].sys == sys);
                                        assert(order0.contains(self.after@[k2].dep));
                                        let p3 = choose|p3: int|
                                            0 <= p3 < order0.len() && order0[p3]
                                                == self.after@[k2].dep;
                                        assert(order@[p3] == self.after@[k2].dep);
                                    }
                                }
                                assert forall|k2: int, p: int, q: int|
                                    0 <= k2 < self.after@.len() && 0 <= p < order@.len() && 0 <= q
                                        < order@.len() && #[trigger] order@[p]
                                        == self.after@[k2].sys && #[trigger] order@[q] == (
                                    #[trigger] self.after@[k2]).dep && order@[p] != order@[q]
                                        implies q < p by {
                                    if q == order@.len() - 1 && p < q {
                                        // the new system would be a pending
                                        // dependency of an already placed one,
                                        // which closedness rules out
                                        assert(order0[p] == order@[p]);
                                        assert(order0.contains(self.after@[k2].sys));
                                        assert(order@[q] == self.entries@[m as int]);
                                        assert(self.entries@.contains(self.after@[k2].dep));
                                        assert(order0.contains(self.after@[k2].dep));
                                        assert(order0.contains(self.entries@[m as int]));
                                        assert(false);
                                    } else if p < order@.len() - 1 && q < order@.len() - 1 {
                                        assert(order0[p] == order@[p]);
                                        assert(order0[q] == order@[q]);
                                    }
                                }
                            }
                        }
                    }
                    m += 1;
                }
                if !progressed {
                    stuck = true;
                }
            }
            rounds += 1;
        }
        // collect what could not be placed, remembering each one's index
        let mut rest: Vec<SystemId> = Vec::new();
        let ghost mut idxs: Seq<int> = Seq::empty();
        let mut m2: usize = 0;
        while m2 < n
            invariant
                m2 <= n == self.entries@.len(),
                placed@.len() == n,
                order@.len() == count_trues(placed@),
                order@.len() <= n,
                stuck ==> stuck_state(self.entries@, self.after@, placed@, order@),
                !stuck ==> order@.len() >= n,
                forall|m3: int|
                    0 <= m3 < n && placed@[m3] ==> order@.contains(#[trigger] self.entries@[m3]),
                forall|p: int|
                    0 <= p < order@.len() ==> self.entries@.contains(#[trigger] order@[p]),
                forall|p: int, q: int| 0 <= p < q < order@.len() ==> order@[p] != order@[q],
                forall|m3: int|
                    0 <= m3 < n && !placed@[m3] ==> !order@.contains(#[trigger] self.entries@[m3]),
                forall|k: int, p: int, q: int|
                    0 <= k < self.after@.len() && 0 <= p < order@.len() && 0 <= q < order@.len()
                        && #[trigger] order@[p] == self.after@[k].sys && #[trigger] order@[q] == (
                    #[trigger] self.after@[k]).dep && order@[p] != order@[q] ==> q < p,
                idxs.len() == rest@.len(),
                forall|i2: int|
                    0 <= i2 < rest@.len() ==> 0 <= #[trigger] idxs[i2] < n && !placed@[idxs[i2]]
                        && self.entries@[idxs[i2]] == rest@[i2],
                forall|i2: int|
                    0 <= i2 < rest@.len() ==> self.entries@.contains(#[trigger] rest@[i2]),
                forall|m3: int|
                    0 <= m3 < m2 && !placed@[m3] ==> rest@.contains(#[trigger] self.entries@[m3]),
            decreases n - m2,
        {
            if !placed[m2] {
                let ghost rest0 = rest@;
                rest.push(self.entries[m2]);
                proof {
                    idxs = idxs.push(m2 as int);
                    assert(self.entries@.contains(self.entries@[m2 as int]));
                    assert forall|m3: int|
                        0 <= m3 < m2 + 1 && !placed@[m3] implies rest@.contains(
                        #[trigger] self.entries@[m3],
                    ) by {
                        if m3 < m2 {
                            let i3 = choose|i3: int|
                                0 <= i3 < rest0.len() && rest0[i3] == self.entries@[m3];
                            assert(rest@[i3] == self.entries@[m3]);
                        } else {
                            assert(rest@[rest@.len() - 1] == self.entries@[m3]);
                        }
                    }
                }
            }
            m2 += 1;
        }
        if rest.len() == 0 {
            proof {
                assert forall|m3: int| 0 <= m3 < placed@.len() implies placed@[m3] by {
                    if !placed@[m3] {
                        assert(rest@.contains(self.entries@[m3]));
                    }
                }
                lemma_count_all(placed@);
            }
            Ok(order)
        } else {
            proof {
                // a nonempty remainder only arises at a fixpoint
                if !stuck {
                    lemma_count_full(placed@);
                    assert(!placed@[idxs[0]]);
                    assert(false);
                }
                assert forall|i2: int|
                    0 <= i2 < rest@.len() implies exists|k: int|
                    0 <= k < self.after@.len() && (#[trigger] self.after@[k]).sys == (
                    #[trigger] rest@[i2]) && rest@.contains(self.after@[k].dep) by {
                    let m3 = idxs[i2];
                    assert(!placed@[m3] && self.entries@[m3] == rest@[i2]);
                    assert(stuck_witness(self.entries@, self.after@, order@, m3));
                    let k = choose|k: int|
                        0 <= k < self.after@.len() && (#[trigger] self.after@[k]).sys
                            == self.entries@[m3] && (self.after@[k].dep == self.entries@[m3] || (
                        self.entries@.contains(self.after@[k].dep) && !order@.contains(
                            self.after@[k].dep,
                        )));
                    if self.after@[k].dep == self.entries@[m3] {
                        assert(rest@[i2] == self.after@[k].dep);
                        assert(rest@.contains(self.after@[k].dep));
                    } else {
                        assert(exists|m4: int|
                            0 <= m4 < self.entries@.len() && self.entries@[m4]
                                == self.after@[k].dep);
                        let m4 = choose|m4: int|
                            0 <= m4 < self.entries@.len() && self.entries@[m4]
                                == self.after@[k].dep;
                        if placed@[m4] {
                            assert(order@.contains(self.entries@[m4]));
                            assert(false);
                        }
                        assert(rest@.contains(self.entries@[m4]));
                    }
                }
            }
            Err(rest)
        }
    }
}

/// Every unplaced system is blocked: it has a declared edge whose
/// dependency is itself, or is declared and not yet in the order.
pub open spec fn stuck_witness(
    entries: Seq<SystemId>,
    after: Seq<AfterEdge>,
    order: Seq<SystemId>,
    m: int,
) -> bool {
    exists|k: int|
        0 <= k < after.len() && (#[trigger] after[k]).sys == entries[m] && (after[k].dep
            == entries[m] || (entries.contains(after[k].dep) && !order.contains(after[k].dep)))
}

/// The fixpoint the resolver stops at: nothing unplaced can be placed.
pub open spec fn stuck_state(
    entries: Seq<SystemId>,
    after: Seq<AfterEdge>,
    placed: Seq<bool>,
    order: Seq<SystemId>,
) -> bool {
    forall|m: int|
        0 <= m < entries.len() && !(#[trigger] placed[m]) ==> stuck_witness(
            entries,
            after,
            order,
            m,
        )
}

/// How many entries of `s` are set.
pub open spec fn count_trues(s: Seq<bool>) -> int
    decreases s.len(),
{
    if s.len() == 0 {
        0
    } else {
        count_trues(s.drop_last()) + if s.last() {
            1int
        } else {
            0int
        }
    }
}

proof fn lemma_count_none(s: Seq<bool>)
    requires
        forall|m: int| 0 <= m < s.len() ==> !s[m],
    ensures
        count_trues(s) == 0,
    decreases s.len(),
{
    if s.len() > 0 {
        lemma_count_none(s.drop_last());
    }
}

proof fn lemma_count_all(s: Seq<bool>)
    requires
        forall|m: int| 0 <= m < s.len() ==> s[m],
    ensures
        count_trues(s) == s.len(),
    decreases s.len(),
{
    if s.len() > 0 {
        lemma_count_all(s.drop_last());
    }
}

proof fn lemma_count_update_true(s: Seq<bool>, m: int)
    requires
        0 <= m < s.len(),
        !s[m],
    ensures
        count_trues(s.update(m, true)) == count_trues(s) + 1,
    decreases s.len(),
{
    let t = s.update(m, true);
    if m == s.len() - 1 {
        assert(t.drop_last() =~= s.drop_last());
    } else {
        assert(t.drop_last() =~= s.drop_last().update(m, true));
        lemma_count_update_true(s.drop_last(), m);
        assert(t.last() == s.last());
    }
}

proof fn lemma_count_le_len(s: Seq<bool>)
    ensures
        0 <= count_trues(s) <= s.len(),
    decreases s.len(),
{
    if s.len() > 0 {
        lemma_count_le_len(s.drop_last());
    }
}

proof fn lemma_count_full(s: Seq<bool>)
    requires
        count_trues(s) == s.len(),
    ensures
        forall|m: int| 0 <= m < s.len() ==> s[m],
    decreases s.len(),
{
    if s.len() > 0 {
        lemma_count_le_len(s.drop_last());
        assert(s.last());
        lemma_count_full(s.drop_last());
        assert forall|m: int| 0 <= m < s.len() implies s[m] by {
            if m < s.len() - 1 {
                assert(s.drop_last()[m] == s[m]);
            }
        }
    }
}

fn contains_sys(v: &Vec<SystemId>, s: SystemId) -> (r: bool)
    ensures
        r == v@.contains(s),
{
    let n = v.len();
    let mut i: usize = 0;
    while i < n
        invariant
            i <= n == v@.len(),
            forall|m: int| 0 <= m < i ==> v@[m] != s,
        decreases n - i,
    {
        if v[i] == s {
            return true;
        }
        i += 1;
    }
    false
}

} // verus!
