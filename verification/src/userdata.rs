//! The userdata association table.
//!
//! The native engine offers a single untyped pointer slot per object. The
//! wrapper stores only an opaque key in that slot and keeps the caller's
//! payload here, keyed by that value, so that release paths can clean up
//! without recovering type information from the native side. Keys are never
//! reused: a released association's key stays dead.

use vstd::prelude::*;

verus! {

/// One association: a key (the value stored in the native userdata slot),
/// the handle that owns the association, and the caller's payload.
#[derive(Clone, Copy, Debug, PartialEq, Eq, Structural)]
pub struct UserdataEntry {
    pub key: usize,
    pub owner: usize,
    pub data: u64,
}

/// The side table of userdata associations.
#[derive(Clone, Debug, PartialEq, Eq)]
pub struct UserdataTable {
    pub next_key: usize,
    pub entries: Vec<UserdataEntry>,
}

impl UserdataTable {
    /// Well-formedness: keys are nonzero, below the allocation cursor, and
    /// pairwise distinct, so a key denotes at most one association and zero
    /// can stand for "no association".
    pub open spec fn wf(self) -> bool {
        &&& 1 <= self.next_key
        &&& forall|i: int|
            0 <= i < self.entries@.len() ==> 0 < #[trigger] self.entries@[i].key
                < self.next_key
        &&& forall|i: int, j: int|
            0 <= i < j < self.entries@.len() ==> #[trigger] self.entries@[i].key
                != #[trigger] self.entries@[j].key
    }

    /// Whether the table holds an association under this key.
    pub open spec fn spec_has_key(self, key: usize) -> bool {
        exists|i: int| 0 <= i < self.entries@.len() && #[trigger] self.entries@[i].key == key
    }

    /// The payload associated with a key, when one is.
    pub open spec fn spec_get(self, key: usize) -> Option<u64> {
        if self.spec_has_key(key) {
            let i = choose|i: int|
                0 <= i < self.entries@.len() && #[trigger] self.entries@[i].key == key;
            Some(self.entries@[i].data)
        } else {
            None
        }
    }

    /// An empty table.
    pub fn new() -> (r: UserdataTable)
        ensures
            r.wf(),
            r.next_key == 1,
            r.entries@.len() == 0,
            forall|k: usize| r.spec_get(k) is None,
    {
        UserdataTable { next_key: 1, entries: Vec::new() }
    }

    /// With distinct keys, any entry holding the key determines the lookup.
    proof fn lemma_get_at(self, key: usize, i: int)
        requires
            self.wf(),
            0 <= i < self.entries@.len(),
            self.entries@[i].key == key,
        ensures
            self.spec_get(key) == Some(self.entries@[i].data),
    {
        let j = choose|j: int|
            0 <= j < self.entries@.len() && #[trigger] self.entries@[j].key == key;
        if i < j {
            assert(self.entries@[i].key != self.entries@[j].key);
        } else if j < i {
            assert(self.entries@[j].key != self.entries@[i].key);
        }
    }

    /// Inserts a payload for an owner and returns the key under which it was
    /// stored, the value the caller writes into the native slot.
    ///
    /// The key is fresh: it was associated with nothing before, so two
    /// inserts never hand out the same key for different payloads. Looking
    /// the key up yields exactly the inserted payload, and every other
    /// association is untouched.
    pub fn insert(&mut self, data: u64, owner: usize) -> (r: usize)
        requires
            old(self).wf(),
            old(self).next_key < usize::MAX,
        ensures
            final(self).wf(),
            r == old(self).next_key,
            !old(self).spec_has_key(r),
            final(self).spec_get(r) == Some(data),
            final(self).next_key == old(self).next_key + 1,
            forall|k: usize| k != r ==> final(self).spec_get(k) == old(self).spec_get(k),
            forall|k: usize| k != r ==> (final(self).spec_has_key(k) == old(self).spec_has_key(
                k,
            )),
    {
        let key = self.next_key;
        let entry = UserdataEntry { key, owner, data };
        self.entries.push(entry);
        self.next_key = self.next_key + 1;
        proof {
            let n = self.entries@.len() - 1;
            assert(self.entries@[n].key == key);
            assert(self.wf());
            self.lemma_get_at(key, n);
            assert forall|k: usize| k != key implies final(self).spec_get(k) == old(
                self,
            ).spec_get(k) by {
                if old(self).spec_has_key(k) {
                    let i = choose|i: int|
                        0 <= i < old(self).entries@.len() && #[trigger] old(
                            self,
                        ).entries@[i].key == k;
                    assert(self.entries@[i].key == k);
                    old(self).lemma_get_at(k, i);
                    self.lemma_get_at(k, i);
                } else {
                    assert forall|i: int|
                        0 <= i < self.entries@.len() implies #[trigger] self.entries@[i].key
                        != k by {
                        if i < self.entries@.len() - 1 {
                            assert(old(self).entries@[i].key != k);
                        }
                    }
                }
            }
            assert forall|k: usize| k != key implies final(self).spec_has_key(k) == old(
                self,
            ).spec_has_key(k) by {
                if old(self).spec_has_key(k) {
                    let i = choose|i: int|
                        0 <= i < old(self).entries@.len() && #[trigger] old(
                            self,
                        ).entries@[i].key == k;
                    assert(self.entries@[i].key == k);
                }
                if self.spec_has_key(k) {
                    let i = choose|i: int|
                        0 <= i < self.entries@.len() && #[trigger] self.entries@[i].key == k;
                    assert(i != n);
                    assert(old(self).entries@[i].key == k);
                }
            }
        }
        key
    }

    /// Finds the position of a key's entry.
    fn find(&self, key: usize) -> (r: Option<usize>)
        requires
            self.wf(),
        ensures
            r is Some ==> 0 <= r->0 < self.entries@.len() && self.entries@[
                r->0 as int
            ].key == key,
            r is None ==> !self.spec_has_key(key),
    {
        let mut i: usize = 0;
        while i < self.entries.len()
            invariant
                i <= self.entries@.len(),
                forall|j: int| 0 <= j < i ==> #[trigger] self.entries@[j].key != key,
            decreases self.entries@.len() - i,
        {
            if self.entries[i].key == key {
                return Some(i);
            }
            i = i + 1;
        }
        None
    }

    /// Looks a key up, yielding the payload stored under it, if any.
    pub fn get(&self, key: usize) -> (r: Option<u64>)
        requires
            self.wf(),
        ensures
            r == self.spec_get(key),
    {
        match self.find(key) {
            Some(i) => {
                let d = self.entries[i].data;
                proof {
                    self.lemma_get_at(key, i as int);
                }
                Some(d)
            },
            None => None,
        }
    }

    /// Replaces the payload stored under a key. Returns whether the key was
    /// associated at all; an unassociated key leaves the table unchanged.
    pub fn set(&mut self, key: usize, data: u64) -> (r: bool)
        requires
            old(self).wf(),
        ensures
            final(self).wf(),
            r == old(self).spec_has_key(key),
            r ==> final(self).spec_get(key) == Some(data),
            !r ==> *final(self) == *old(self),
            forall|k: usize| k != key ==> final(self).spec_get(k) == old(self).spec_get(k),
            forall|k: usize|
                final(self).spec_has_key(k) == old(self).spec_has_key(k),
            final(self).next_key == old(self).next_key,
    {
        match self.find(key) {
            Some(i) => {
                proof {
                    old(self).lemma_get_at(key, i as int);
                }
                let owner = self.entries[i].owner;
                let _old_entry = self.entries.remove(i);
                self.entries.insert(i, UserdataEntry { key, owner, data });
                proof {
                    assert(self.entries@ =~= old(self).entries@.update(
                        i as int,
                        UserdataEntry { key, owner, data },
                    ));
                    assert(self.wf());
                    self.lemma_get_at(key, i as int);
                    assert forall|k: usize| k != key implies final(self).spec_get(k) == old(
                        self,
                    ).spec_get(k) by {
                        if old(self).spec_has_key(k) {
                            let j = choose|j: int|
                                0 <= j < old(self).entries@.len() && #[trigger] old(
                                    self,
                                ).entries@[j].key == k;
                            assert(self.entries@[j].key == k);
                            old(self).lemma_get_at(k, j);
                            self.lemma_get_at(k, j);
                        } else {
                            assert forall|j: int|
                                0 <= j < self.entries@.len() implies #[trigger] self.entries@[
                                j].key != k by {
                                assert(old(self).entries@[j].key != k);
                            }
                        }
                    }
                    assert forall|k: usize|
                        final(self).spec_has_key(k) == old(self).spec_has_key(k) by {
                        if old(self).spec_has_key(k) {
                            let j = choose|j: int|
                                0 <= j < old(self).entries@.len() && #[trigger] old(
                                    self,
                                ).entries@[j].key == k;
                            assert(self.entries@[j].key == k);
                        }
                        if self.spec_has_key(k) {
                            let j = choose|j: int|
                                0 <= j < self.entries@.len() && #[trigger] self.entries@[
                                j].key == k;
                            assert(old(self).entries@[j].key == k);
                        }
                    }
                }
                true
            },
            None => false,
        }
    }

    /// Removes the association under a key, yielding the payload it held.
    ///
    /// Afterwards the key is associated with nothing: a lookup yields
    /// absence, and every other association is untouched.
    pub fn remove(&mut self, key: usize) -> (r: Option<u64>)
        requires
            old(self).wf(),
        ensures
            final(self).wf(),
            r == old(self).spec_get(key),
            final(self).spec_get(key) is None,
            !final(self).spec_has_key(key),
            forall|k: usize| k != key ==> final(self).spec_get(k) == old(self).spec_get(k),
            final(self).next_key == old(self).next_key,
    {
        match self.find(key) {
            Some(i) => {
                proof {
                    old(self).lemma_get_at(key, i as int);
                }
                let entry = self.entries.remove(i);
                proof {
                    assert(self.entries@ =~= old(self).entries@.remove(i as int));
                    assert forall|j: int, jj: int|
                        0 <= j < jj < self.entries@.len() implies #[trigger] self.entries@[
                        j].key != #[trigger] self.entries@[jj].key by {
                        let pj: int = if j < i as int {
                            j
                        } else {
                            j + 1
                        };
                        let pjj: int = if jj < i as int {
                            jj
                        } else {
                            jj + 1
                        };
                        assert(self.entries@[j] == old(self).entries@[pj]);
                        assert(self.entries@[jj] == old(self).entries@[pjj]);
                    }
                    assert(self.wf());
                    assert forall|j: int|
                        0 <= j < self.entries@.len() implies #[trigger] self.entries@[j].key
                        != key by {
                        let pj: int = if j < i as int {
                            j
                        } else {
                            j + 1
                        };
                        assert(self.entries@[j] == old(self).entries@[pj]);
                        if pj != i as int {
                            if pj < i as int {
                                assert(old(self).entries@[pj].key != old(self).entries@[
                                    i as int].key);
                            } else {
                                assert(old(self).entries@[i as int].key != old(
                                    self,
                                ).entries@[pj].key);
                            }
                        }
                    }
                    assert forall|k: usize| k != key implies final(self).spec_get(k) == old(
                        self,
                    ).spec_get(k) by {
                        if old(self).spec_has_key(k) {
                            let j = choose|j: int|
                                0 <= j < old(self).entries@.len() && #[trigger] old(
                                    self,
                                ).entries@[j].key == k;
                            let nj: int = if j < i as int {
                                j
                            } else {
                                j - 1
                            };
                            assert(j != i as int);
                            assert(self.entries@[nj] == old(self).entries@[j]);
                            old(self).lemma_get_at(k, j);
                            self.lemma_get_at(k, nj);
                        } else {
                            assert forall|j: int|
                                0 <= j < self.entries@.len() implies #[trigger] self.entries@[
                                j].key != k by {
                                let pj: int = if j < i as int {
                                    j
                                } else {
                                    j + 1
                                };
                                assert(self.entries@[j] == old(self).entries@[pj]);
                            }
                        }
                    }
                }
                Some(entry.data)
            },
            None => None,
        }
    }
}

} // verus!
