//! Sparse component storage: an association list keyed by entity index,
//! used for component kinds that are attached to few entities and rarely
//! iterated. Keys are kept pairwise distinct, and every operation is
//! specified pointwise over the map the list represents.

use vstd::prelude::*;

verus! {

/// One key-value pair of a sparse store.
pub struct SparseEntry<C> {
    pub key: usize,
    pub val: C,
}

/// Sparse storage for component kind `C`, keyed by entity index.
pub struct SparseStore<C> {
    pub entries: Vec<SparseEntry<C>>,
}

/// The value the association list `s` holds for `key` (first match).
pub open spec fn sparse_get<C>(s: Seq<SparseEntry<C>>, key: usize) -> Option<C>
    decreases s.len(),
{
    if s.len() == 0 {
        None
    } else if s[0].key == key {
        Some(s[0].val)
    } else {
        sparse_get(s.drop_first(), key)
    }
}

/// With `key` standing at `j` and at no earlier position, the lookup
/// finds exactly the value at `j`.
pub proof fn lemma_sparse_get_found<C>(s: Seq<SparseEntry<C>>, j: int, key: usize)
    requires
        0 <= j < s.len(),
        s[j].key == key,
        forall|m: int| 0 <= m < j ==> (#[trigger] s[m]).key != key,
    ensures
        sparse_get(s, key) == Some(s[j].val),
    decreases j,
{
    if j > 0 {
        assert forall|m: int| 0 <= m < j - 1 implies (#[trigger] s.drop_first()[m]).key != key by {
            assert(s.drop_first()[m] == s[m + 1]);
        }
        assert(s.drop_first()[j - 1] == s[j]);
        lemma_sparse_get_found(s.drop_first(), j - 1, key);
    }
}

/// With `key` at no position at all, the lookup finds nothing.
pub proof fn lemma_sparse_get_absent<C>(s: Seq<SparseEntry<C>>, key: usize)
    requires
        forall|m: int| 0 <= m < s.len() ==> (#[trigger] s[m]).key != key,
    ensures
        sparse_get(s, key) is None,
    decreases s.len(),
{
    if s.len() > 0 {
        assert forall|m: int| 0 <= m < s.drop_first().len() implies (#[trigger] s.drop_first()[m]).key
            != key by {
            assert(s.drop_first()[m] == s[m + 1]);
        }
        lemma_sparse_get_absent(s.drop_first(), key);
    }
}

/// Replacing the value at `j` (whose key occurs nowhere else) changes the
/// lookup only at that key.
proof fn lemma_sparse_get_update<C>(s: Seq<SparseEntry<C>>, j: int, val: C, k: usize)
    requires
        0 <= j < s.len(),
        forall|m: int| 0 <= m < s.len() && m != j ==> (#[trigger] s[m]).key != s[j].key,
    ensures
        sparse_get(s.update(j, SparseEntry { key: s[j].key, val }), k) == if k == s[j].key {
            Some(val)
        } else {
            sparse_get(s, k)
        },
    decreases s.len(),
{
    let t = s.update(j, SparseEntry { key: s[j].key, val });
    if j == 0 {
        if k == s[0].key {
        } else {
            assert(t.drop_first() =~= s.drop_first());
        }
    } else {
        assert(t[0] == s[0]);
        if k == s[0].key {
            assert(s[0].key != s[j].key);
        } else {
            assert(t.drop_first() =~= s.drop_first().update(j - 1, SparseEntry {
                key: s[j].key,
                val,
            }));
            assert(s.drop_first()[j - 1] == s[j]);
            assert forall|m: int|
                0 <= m < s.drop_first().len() && m != j - 1 implies (#[trigger] s.drop_first()[m]).key
                != s.drop_first()[j - 1].key by {
                assert(s.drop_first()[m] == s[m + 1]);
            }
            lemma_sparse_get_update(s.drop_first(), j - 1, val, k);
        }
    }
}

/// Appending an entry changes the lookup only at its key, and only if
/// that key was absent.
proof fn lemma_sparse_get_push<C>(s: Seq<SparseEntry<C>>, e: SparseEntry<C>, k: usize)
    ensures
        sparse_get(s.push(e), k) == if sparse_get(s, k) is Some {
            sparse_get(s, k)
        } else if k == e.key {
            Some(e.val)
        } else {
            None::<C>
        },
    decreases s.len(),
{
    let t = s.push(e);
    if s.len() == 0 {
        assert(t[0] == e);
        assert(t.drop_first() =~= Seq::<SparseEntry<C>>::empty());
        if k == e.key {
            assert(sparse_get(t, k) == Some(e.val));
        } else {
            assert(sparse_get(t, k) == sparse_get(t.drop_first(), k));
        }
    } else {
        assert(t[0] == s[0]);
        assert(t.drop_first() =~= s.drop_first().push(e));
        lemma_sparse_get_push(s.drop_first(), e, k);
        if s[0].key == k {
            assert(sparse_get(t, k) == Some(s[0].val));
            assert(sparse_get(s, k) == Some(s[0].val));
        } else {
            assert(sparse_get(t, k) == sparse_get(s.drop_first().push(e), k));
            assert(sparse_get(s, k) == sparse_get(s.drop_first(), k));
        }
    }
}

/// Removing the entry at `j` (whose key occurs nowhere else) changes the
/// lookup only at that key.
proof fn lemma_sparse_get_remove<C>(s: Seq<SparseEntry<C>>, j: int, k: usize)
    requires
        0 <= j < s.len(),
        forall|m: int| 0 <= m < s.len() && m != j ==> (#[trigger] s[m]).key != s[j].key,
    ensures
        sparse_get(s.remove(j), k) == if k == s[j].key {
            None::<C>
        } else {
            sparse_get(s, k)
        },
    decreases s.len(),
{
    if j == 0 {
        assert(s.remove(0) =~= s.drop_first());
        if k == s[0].key {
            assert forall|m: int| 0 <= m < s.drop_first().len() implies (#[trigger] s.drop_first()[m]).key
                != k by {
                assert(s.drop_first()[m] == s[m + 1]);
            }
            lemma_sparse_get_absent(s.drop_first(), k);
        }
    } else {
        assert(s.remove(j)[0] == s[0]);
        if k == s[0].key {
            assert(s[0].key != s[j].key);
        } else {
            assert(s.remove(j).drop_first() =~= s.drop_first().remove(j - 1));
            assert(s.drop_first()[j - 1] == s[j]);
            assert forall|m: int|
                0 <= m < s.drop_first().len() && m != j - 1 implies (#[trigger] s.drop_first()[m]).key
                != s.drop_first()[j - 1].key by {
                assert(s.drop_first()[m] == s[m + 1]);
            }
            lemma_sparse_get_remove(s.drop_first(), j - 1, k);
        }
    }
}

/// A present key stands at some position of the list.
pub proof fn lemma_sparse_get_index<C>(s: Seq<SparseEntry<C>>, key: usize)
    requires
        sparse_get(s, key) is Some,
    ensures
        exists|p: int| 0 <= p < s.len() && (#[trigger] s[p]).key == key,
    decreases s.len(),
{
    if s.len() > 0 && s[0].key != key {
        lemma_sparse_get_index(s.drop_first(), key);
        let p = choose|p: int|
            0 <= p < s.drop_first().len() && (#[trigger] s.drop_first()[p]).key == key;
        assert(s[p + 1] == s.drop_first()[p]);
    }
}

impl<C> SparseStore<C> {
    /// Keys are pairwise distinct.
    pub open spec fn wf(self) -> bool {
        forall|i: int, j: int|
            0 <= i < j < self.entries@.len() ==> (#[trigger] self.entries@[i]).key != (
            #[trigger] self.entries@[j]).key
    }

    /// The value stored for entity index `key`, if any.
    pub open spec fn spec_get(self, key: usize) -> Option<C> {
        sparse_get(self.entries@, key)
    }

    pub open spec fn contains_key(self, key: usize) -> bool {
        self.spec_get(key) is Some
    }

    /// In a well-formed store, the entry at position `j` is what lookup
    /// of its key finds.
    pub proof fn lemma_entry_get(self, j: int)
        requires
            self.wf(),
            0 <= j < self.entries@.len(),
        ensures
            self.spec_get(self.entries@[j].key) == Some(self.entries@[j].val),
    {
        lemma_sparse_get_found(self.entries@, j, self.entries@[j].key);
    }

    pub fn new() -> (r: SparseStore<C>)
        ensures
            r.wf(),
            r.entries@.len() == 0,
            forall|k: usize| #[trigger] r.spec_get(k) is None,
    {
        let r = SparseStore { entries: Vec::new() };
        proof {
            assert forall|k: usize| #[trigger] r.spec_get(k) is None by {
                lemma_sparse_get_absent(r.entries@, k);
            }
        }
        r
    }

    pub fn len(&self) -> (r: usize)
        ensures
            r == self.entries@.len(),
    {
        self.entries.len()
    }

    pub fn key_at(&self, j: usize) -> (r: usize)
        requires
            j < self.entries@.len(),
        ensures
            r == self.entries@[j as int].key,
    {
        self.entries[j].key
    }

    pub fn val_at(&self, j: usize) -> (r: &C)
        requires
            j < self.entries@.len(),
        ensures
            *r == self.entries@[j as int].val,
    {
        &self.entries[j].val
    }

    pub fn get(&self, key: usize) -> (r: Option<&C>)
        ensures
            match r {
                Some(c) => self.spec_get(key) == Some(*c),
                None => self.spec_get(key) is None,
            },
    {
        let n = self.entries.len();
        let mut i: usize = 0;
        while i < n
            invariant
                i <= n == self.entries@.len(),
                forall|m: int| 0 <= m < i ==> (#[trigger] self.entries@[m]).key != key,
            decreases n - i,
        {
            if self.entries[i].key == key {
                proof {
                    lemma_sparse_get_found(self.entries@, i as int, key);
                }
                return Some(&self.entries[i].val);
            }
            i += 1;
        }
        proof {
            lemma_sparse_get_absent(self.entries@, key);
        }
        None
    }

    /// Replace the value at position `j`, keeping its key.
    pub fn set_at(&mut self, j: usize, val: C)
        requires
            old(self).wf(),
            j < old(self).entries@.len(),
        ensures
            final(self).wf(),
            final(self).entries@.len() == old(self).entries@.len(),
            final(self).entries@ == old(self).entries@.update(
                j as int,
                SparseEntry { key: old(self).entries@[j as int].key, val },
            ),
            forall|m: int|
                0 <= m < final(self).entries@.len() ==> (#[trigger] final(self).entries@[m]).key
                    == old(self).entries@[m].key,
            forall|k: usize|
                #[trigger] final(self).spec_get(k) == if k == old(self).entries@[j as int].key {
                    Some(val)
                } else {
                    old(self).spec_get(k)
                },
    {
        let key = self.entries[j].key;
        let ghost s = self.entries@;
        self.entries[j] = SparseEntry { key, val };
        proof {
            assert(self.entries@ =~= s.update(j as int, SparseEntry { key: s[j as int].key, val }));
            assert forall|k: usize|
                #[trigger] self.spec_get(k) == if k == s[j as int].key {
                    Some(val)
                } else {
                    sparse_get(s, k)
                } by {
                lemma_sparse_get_update(s, j as int, val, k);
            }
        }
    }

    /// Insert or overwrite the value stored for `key`.
    pub fn insert(&mut self, key: usize, val: C)
        requires
            old(self).wf(),
        ensures
            final(self).wf(),
            final(self).entries@.len() <= old(self).entries@.len() + 1,
            forall|m: int|
                0 <= m < final(self).entries@.len() ==> (#[trigger] final(self).entries@[m]).key
                    == key || old(self).contains_key(final(self).entries@[m].key),
            forall|k: usize|
                #[trigger] final(self).spec_get(k) == if k == key {
                    Some(val)
                } else {
                    old(self).spec_get(k)
                },
    {
        let n = self.entries.len();
        let mut i: usize = 0;
        while i < n
            invariant
                self == old(self),
                self.wf(),
                i <= n == self.entries@.len(),
                forall|m: int| 0 <= m < i ==> (#[trigger] self.entries@[m]).key != key,
            decreases n - i,
        {
            if self.entries[i].key == key {
                self.set_at(i, val);
                proof {
                    assert forall|m: int|
                        0 <= m < self.entries@.len() implies (#[trigger] self.entries@[m]).key
                        == key || old(self).contains_key(self.entries@[m].key) by {
                        if m != i {
                            old(self).lemma_entry_get(m);
                        }
                    }
                }
                return ;
            }
            i += 1;
        }
        let ghost s = self.entries@;
        self.entries.push(SparseEntry { key, val });
        proof {
            assert forall|k: usize|
                #[trigger] self.spec_get(k) == if k == key {
                    Some(val)
                } else {
                    sparse_get(s, k)
                } by {
                lemma_sparse_get_push(s, SparseEntry { key, val }, k);
                if k != key && sparse_get(s, k) is None {
                } else if k == key {
                    lemma_sparse_get_absent(s, key);
                }
            }
            assert forall|i2: int, j2: int|
                0 <= i2 < j2 < self.entries@.len() implies (#[trigger] self.entries@[i2]).key != (
            #[trigger] self.entries@[j2]).key by {
                if j2 == self.entries@.len() - 1 {
                    assert(self.entries@[i2] == s[i2]);
                }
            }
            assert forall|m: int|
                0 <= m < self.entries@.len() implies (#[trigger] self.entries@[m]).key == key
                || old(self).contains_key(self.entries@[m].key) by {
                if m < self.entries@.len() - 1 {
                    assert(self.entries@[m] == s[m]);
                    old(self).lemma_entry_get(m);
                }
            }
        }
    }

    /// Remove and return the value stored for `key`, if any.
    pub fn take(&mut self, key: usize) -> (r: Option<C>)
        requires
            old(self).wf(),
        ensures
            final(self).wf(),
            final(self).entries@.len() <= old(self).entries@.len(),
            forall|m: int|
                0 <= m < final(self).entries@.len() ==> old(self).contains_key(
                    (#[trigger] final(self).entries@[m]).key,
                ),
            forall|k: usize|
                #[trigger] final(self).spec_get(k) == if k == key {
                    None::<C>
                } else {
                    old(self).spec_get(k)
                },
            match r {
                Some(c) => old(self).spec_get(key) == Some(c),
                None => old(self).spec_get(key) is None,
            },
    {
        let n = self.entries.len();
        let mut i: usize = 0;
        while i < n
            invariant
                self == old(self),
                self.wf(),
                i <= n == self.entries@.len(),
                forall|m: int| 0 <= m < i ==> (#[trigger] self.entries@[m]).key != key,
            decreases n - i,
        {
            if self.entries[i].key == key {
                let ghost s = self.entries@;
                proof {
                    lemma_sparse_get_found(s, i as int, key);
                }
                let e = self.entries.remove(i);
                proof {
                    assert forall|k: usize|
                        #[trigger] self.spec_get(k) == if k == key {
                            None::<C>
                        } else {
                            sparse_get(s, k)
                        } by {
                        lemma_sparse_get_remove(s, i as int, k);
                    }
                    assert forall|i2: int, j2: int|
                        0 <= i2 < j2 < self.entries@.len() implies (
                    #[trigger] self.entries@[i2]).key != (#[trigger] self.entries@[j2]).key by {
                        assert(self.entries@[i2] == if i2 < i { s[i2] } else { s[i2 + 1] });
                        assert(self.entries@[j2] == if j2 < i { s[j2] } else { s[j2 + 1] });
                    }
                    assert forall|m: int|
                        0 <= m < self.entries@.len() implies old(self).contains_key(
                        (#[trigger] self.entries@[m]).key,
                    ) by {
                        assert(self.entries@[m] == if m < i { s[m] } else { s[m + 1] });
                        if m < i {
                            old(self).lemma_entry_get(m);
                        } else {
                            old(self).lemma_entry_get(m + 1);
                        }
                    }
                }
                return Some(e.val);
            }
            i += 1;
        }
        proof {
            lemma_sparse_get_absent(self.entries@, key);
            assert forall|m: int|
                0 <= m < self.entries@.len() implies old(self).contains_key(
                (#[trigger] self.entries@[m]).key,
            ) by {
                old(self).lemma_entry_get(m);
            }
        }
        None
    }

    /// Remove the value stored for `key`, if any.
    pub fn remove(&mut self, key: usize)
        requires
            old(self).wf(),
        ensures
            final(self).wf(),
            final(self).entries@.len() <= old(self).entries@.len(),
            forall|m: int|
                0 <= m < final(self).entries@.len() ==> old(self).contains_key(
                    (#[trigger] final(self).entries@[m]).key,
                ),
            forall|k: usize|
                #[trigger] final(self).spec_get(k) == if k == key {
                    None::<C>
                } else {
                    old(self).spec_get(k)
                },
    {
        let _ = self.take(key);
    }
}

} // verus!
