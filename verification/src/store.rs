//! The authoritative catalog of element sets, keyed by object identifier.
//!
//! The store maps each catalog number to exactly one element set.  A
//! refresh replaces the whole mapping at once; readers never observe a
//! partially updated catalog.  When the incoming collection carries the
//! same identifier more than once, the last occurrence wins, matching an
//! insertion loop into a keyed map.

use vstd::prelude::*;

verus! {

use vstd::pervasive::VecAdditionalExecFns;
use crate::elements::OrbitalElementSet;

/// Some element of `s` carries catalog number `id`.
pub open spec fn seq_contains_id(s: Seq<OrbitalElementSet>, id: u64) -> bool {
    exists|i: int| 0 <= i < s.len() && s[i].norad_id == id
}

/// `e` occurs in `s` and no later element of `s` carries its identifier.
pub open spec fn is_last_with_id(s: Seq<OrbitalElementSet>, e: OrbitalElementSet) -> bool {
    exists|j: int|
        0 <= j < s.len() && s[j] == e && (forall|k: int|
            j < k < s.len() ==> s[k].norad_id != e.norad_id)
}

/// The catalog of tracked objects' element sets.
pub struct ElementStore {
    /// The element sets, one per catalog number.
    pub sats: Vec<OrbitalElementSet>,
}

impl ElementStore {
    /// Each catalog number occurs at most once.
    pub open spec fn wf(self) -> bool {
        forall|i: int, j: int|
            0 <= i < j < self.sats@.len() ==> self.sats@[i].norad_id != self.sats@[j].norad_id
    }

    /// The store holds an element set for `id`.
    pub open spec fn contains_id(self, id: u64) -> bool {
        seq_contains_id(self.sats@, id)
    }

    /// The index of the element set for `id`.
    pub open spec fn index_of(self, id: u64) -> int {
        choose|i: int| 0 <= i < self.sats@.len() && self.sats@[i].norad_id == id
    }

    /// The element set stored for `id`.
    pub open spec fn spec_get(self, id: u64) -> OrbitalElementSet {
        self.sats@[self.index_of(id)]
    }

    /// An empty catalog.
    pub fn new() -> (r: ElementStore)
        ensures
            r.wf(),
            r.sats@.len() == 0,
            forall|id: u64| !r.contains_id(id),
    {
        ElementStore { sats: Vec::new() }
    }

    /// Number of objects in the catalog.
    pub fn len(&self) -> (r: usize)
        ensures
            r == self.sats@.len(),
    {
        self.sats.len()
    }

    /// Whether the catalog holds an element set for `id`.
    pub fn contains(&self, id: u64) -> (r: bool)
        ensures
            r == self.contains_id(id),
    {
        let mut i: usize = 0;
        while i < self.sats.len()
            invariant
                i <= self.sats@.len(),
                forall|k: int| 0 <= k < i ==> self.sats@[k].norad_id != id,
            decreases self.sats@.len() - i,
        {
            if self.sats[i].norad_id == id {
                return true;
            }
            i = i + 1;
        }
        false
    }

    /// The element set for `id`, when the catalog holds one.
    pub fn get(&self, id: u64) -> (r: Option<&OrbitalElementSet>)
        requires
            self.wf(),
        ensures
            match r {
                Some(e) => self.contains_id(id) && *e == self.spec_get(id) && e.norad_id == id,
                None => !self.contains_id(id),
            },
    {
        let mut i: usize = 0;
        while i < self.sats.len()
            invariant
                self.wf(),
                i <= self.sats@.len(),
                forall|k: int| 0 <= k < i ==> self.sats@[k].norad_id != id,
            decreases self.sats@.len() - i,
        {
            if self.sats[i].norad_id == id {
                proof {
                    assert(self.sats@[i as int].norad_id == id);
                    let j = self.index_of(id);
                    assert(0 <= j < self.sats@.len() && self.sats@[j].norad_id == id);
                    assert(j == i as int);
                }
                return Some(&self.sats[i]);
            }
            i = i + 1;
        }
        None
    }

    /// The stored name of object `id`.
    ///
    /// The caller must know the object is cataloged with a name; the
    /// original lookup treats a missing entry as a programming error.
    pub fn get_name(&self, id: u64) -> (r: String)
        requires
            self.wf(),
            self.contains_id(id),
            self.spec_get(id).object_name is Some,
        ensures
            r@ == self.spec_get(id).object_name->0@,
    {
        let e = self.get(id);
        match e {
            Some(e) => match &e.object_name {
                Some(n) => n.clone(),
                None => {
                    proof {
                        assert(false);
                    }
                    String::new()
                },
            },
            None => {
                proof {
                    assert(false);
                }
                String::new()
            },
        }
    }

    /// Inserts `e`, replacing any element set already stored under its
    /// catalog number.
    fn upsert(&mut self, e: OrbitalElementSet)
        requires
            old(self).wf(),
        ensures
            final(self).wf(),
            old(self).contains_id(e.norad_id) ==> final(self).sats@ == old(self).sats@.update(
                old(self).index_of(e.norad_id),
                e,
            ),
            !old(self).contains_id(e.norad_id) ==> final(self).sats@ == old(self).sats@.push(e),
    {
        let mut i: usize = 0;
        while i < self.sats.len()
            invariant
                self.wf(),
                self == old(self),
                i <= self.sats@.len(),
                forall|k: int| 0 <= k < i ==> self.sats@[k].norad_id != e.norad_id,
            decreases self.sats@.len() - i,
        {
            if self.sats[i].norad_id == e.norad_id {
                proof {
                    let j = old(self).index_of(e.norad_id);
                    assert(0 <= j < self.sats@.len() && self.sats@[j].norad_id == e.norad_id);
                    assert(j == i as int);
                }
                self.sats.set(i, e);
                proof {
                    assert forall|a: int, b: int|
                        0 <= a < b < self.sats@.len() implies self.sats@[a].norad_id
                        != self.sats@[b].norad_id by {
                        assert(old(self).sats@[a].norad_id != old(self).sats@[b].norad_id);
                    }
                }
                return ;
            }
            i = i + 1;
        }
        self.sats.push(e);
    }

    /// Replaces the whole catalog with the element sets of `new_sets`.
    ///
    /// Afterwards the catalog holds exactly the identifiers of `new_sets`,
    /// and each stored element set is the last occurrence of its identifier
    /// in `new_sets`.
    pub fn replace_all(&mut self, new_sets: Vec<OrbitalElementSet>)
        ensures
            final(self).wf(),
            forall|id: u64| final(self).contains_id(id) <==> seq_contains_id(new_sets@, id),
            forall|i: int|
                0 <= i < final(self).sats@.len() ==> is_last_with_id(new_sets@, final(self).sats@[i]),
    {
        let ghost all = new_sets@;
        let mut remaining = new_sets;
        self.sats = Vec::new();
        let ghost mut done: int = 0;
        while remaining.len() > 0
            invariant
                self.wf(),
                0 <= done <= all.len(),
                remaining@ == all.skip(done),
                forall|id: u64| self.contains_id(id) <==> seq_contains_id(all.take(done), id),
                forall|i: int|
                    0 <= i < self.sats@.len() ==> is_last_with_id(all.take(done), self.sats@[i]),
            decreases remaining@.len(),
        {
            let e = remaining.remove(0);
            proof {
                assert(all.skip(done)[0] == e);
                assert(all[done] == e);
                assert(remaining@ =~= all.skip(done + 1));
            }
            let ghost prestore = *self;
            let ghost had = self.contains_id(e.norad_id);
            self.upsert(e);
            proof {
                let pre = prestore.sats@;
                let prefix = all.take(done + 1);
                assert(all.take(done).push(e) =~= prefix);
                assert(prefix[done] == e);
                let idx: int = if had {
                    prestore.index_of(e.norad_id)
                } else {
                    -1
                };
                if had {
                    assert(0 <= idx < pre.len() && pre[idx].norad_id == e.norad_id);
                    assert(self.sats@ == pre.update(idx, e));
                } else {
                    assert(self.sats@ == pre.push(e));
                }
                // untouched entries are unchanged and carry other identifiers
                assert forall|i: int|
                    0 <= i < self.sats@.len() && self.sats@[i].norad_id != e.norad_id implies
                    self.sats@[i] == pre[i] && 0 <= i < pre.len() by {
                    if had {
                        assert(i != idx);
                    } else {
                        assert(i != pre.len());
                    }
                }
                // every stored entry is the last of its identifier in the prefix
                assert forall|i: int|
                    0 <= i < self.sats@.len() implies is_last_with_id(prefix, self.sats@[i]) by {
                    if self.sats@[i].norad_id == e.norad_id {
                        if had {
                            assert(self.sats@[i] == e || (i != idx && self.sats@[i] == pre[i]));
                            if i != idx {
                                assert(pre[i].norad_id != pre[idx].norad_id);
                            }
                        } else {
                            if i < pre.len() {
                                assert(prestore.contains_id(e.norad_id));
                            }
                        }
                        assert(self.sats@[i] == e);
                        assert(forall|k: int|
                            done < k < prefix.len() ==> prefix[k].norad_id != e.norad_id);
                        assert(prefix[done] == e);
                    } else {
                        assert(self.sats@[i] == pre[i]);
                        assert(is_last_with_id(all.take(done), self.sats@[i]));
                        let j = choose|j: int|
                            0 <= j < all.take(done).len() && all.take(done)[j] == self.sats@[i]
                                && (forall|k: int|
                                j < k < all.take(done).len() ==> all.take(done)[k].norad_id
                                    != self.sats@[i].norad_id);
                        assert(prefix[j] == self.sats@[i]);
                        assert(forall|k: int|
                            j < k < prefix.len() ==> prefix[k].norad_id
                                != self.sats@[i].norad_id);
                    }
                }
                // the stored identifiers are exactly those of the prefix
                assert forall|id: u64|
                    self.contains_id(id) <==> seq_contains_id(prefix, id) by {
                    if seq_contains_id(prefix, id) {
                        let j = choose|j: int| 0 <= j < prefix.len() && prefix[j].norad_id == id;
                        if j < done {
                            assert(all.take(done)[j].norad_id == id);
                            assert(seq_contains_id(all.take(done), id));
                            assert(prestore.contains_id(id));
                            let k = choose|k: int|
                                0 <= k < pre.len() && pre[k].norad_id == id;
                            if had && k == idx {
                                assert(self.sats@[idx].norad_id == id);
                            } else {
                                assert(self.sats@[k].norad_id == id);
                            }
                        } else {
                            assert(prefix[j] == e);
                            if had {
                                assert(self.sats@[idx] == e);
                            } else {
                                assert(self.sats@[pre.len() as int] == e);
                            }
                        }
                        assert(self.contains_id(id));
                    }
                    if self.contains_id(id) {
                        let j = choose|j: int|
                            0 <= j < self.sats@.len() && self.sats@[j].norad_id == id;
                        if self.sats@[j].norad_id == e.norad_id {
                            assert(prefix[done].norad_id == id);
                        } else {
                            assert(self.sats@[j] == pre[j]);
                            assert(prestore.contains_id(id));
                            assert(seq_contains_id(all.take(done), id));
                            let k = choose|k: int|
                                0 <= k < all.take(done).len() && all.take(done)[k].norad_id == id;
                            assert(prefix[k].norad_id == id);
                        }
                        assert(seq_contains_id(prefix, id));
                    }
                }
                done = done + 1;
            }
        }
        proof {
            assert(all.take(done) =~= all);
        }
    }
}

} // verus!
