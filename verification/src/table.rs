//! Association tables with unique keys and stable insertion order.
//!
//! Every resource mapping in the engine (shader sources, compiled shaders,
//! programs, buffers, and so on) is a `Table`: a vector of key/value pairs
//! whose keys are pairwise distinct.  Inserting under an existing key
//! replaces the value in place, so the latest registration wins while the
//! original position in the iteration order is kept.

use vstd::prelude::*;

verus! {

/// Keys a `Table` can index by.
///
/// Keys are compared by their spec-level view, so two keys are "the same"
/// exactly when their views agree.
pub trait TableKey: View + Sized {
    /// Decides view equality of two keys.
    fn key_eq(&self, other: &Self) -> (r: bool)
        ensures
            r == (self@ == other@),
    ;

    /// Produces a key with the same view.
    fn key_dup(&self) -> (r: Self)
        ensures
            r@ == self@,
    ;
}

impl TableKey for String {
    fn key_eq(&self, other: &Self) -> (r: bool) {
        self.eq(other)
    }

    fn key_dup(&self) -> (r: Self) {
        self.clone()
    }
}

impl TableKey for u64 {
    fn key_eq(&self, other: &Self) -> (r: bool) {
        *self == *other
    }

    fn key_dup(&self) -> (r: Self) {
        *self
    }
}

/// An insertion-ordered mapping from keys to values with unique keys.
pub struct Table<K, V> {
    entries: Vec<(K, V)>,
}

impl<K: TableKey, V> Table<K, V> {
    /// The underlying sequence of key/value pairs, in insertion order.
    pub closed spec fn entries_seq(self) -> Seq<(K, V)> {
        self.entries@
    }

    /// The key views, in insertion order.
    pub open spec fn key_seq(self) -> Seq<K::V> {
        self.entries_seq().map_values(|e: (K, V)| e.0@)
    }

    pub open spec fn spec_len(self) -> nat {
        self.entries_seq().len()
    }

    /// Keys are pairwise distinct.
    pub open spec fn wf(self) -> bool {
        forall|i: int, j: int|
            0 <= i < j < self.spec_len() ==> self.key_seq()[i] != self.key_seq()[j]
    }

    pub open spec fn contains_key(self, k: K::V) -> bool {
        self.key_seq().contains(k)
    }

    /// The position of key `k`, meaningful only when `contains_key(k)`.
    pub open spec fn index_of(self, k: K::V) -> int {
        choose|i: int| 0 <= i < self.spec_len() && self.key_seq()[i] == k
    }

    /// The value stored under key `k`, meaningful only when `contains_key(k)`.
    pub open spec fn spec_get(self, k: K::V) -> V {
        self.entries_seq()[self.index_of(k)].1
    }

    pub proof fn lemma_index_of(self, k: K::V)
        requires
            self.contains_key(k),
        ensures
            0 <= self.index_of(k) < self.spec_len(),
            self.key_seq()[self.index_of(k)] == k,
    {
        let idx = choose|i: int|
            0 <= i < self.key_seq().len() && self.key_seq()[i] == k;
        assert(self.key_seq()[idx] == k);
    }

    /// Positions of distinct lookups differ only by key; with `wf`, the
    /// position of a contained key is the unique one holding it.
    pub proof fn lemma_get_at(self, k: K::V, i: int)
        requires
            self.wf(),
            0 <= i < self.spec_len(),
            self.key_seq()[i] == k,
        ensures
            self.index_of(k) == i,
            self.spec_get(k) == self.entries_seq()[i].1,
            self.contains_key(k),
    {
        assert(self.contains_key(k)) by {
            assert(self.key_seq()[i] == k);
        }
        self.lemma_index_of(k);
        let j = self.index_of(k);
        if i != j {
            assert(self.key_seq()[i] != self.key_seq()[j]);
        }
    }

    pub fn new() -> (r: Self)
        ensures
            r.wf(),
            r.entries_seq() === Seq::empty(),
            r.spec_len() == 0,
    {
        Table { entries: Vec::new() }
    }

    pub fn len(&self) -> (r: usize)
        ensures
            r == self.spec_len(),
    {
        self.entries.len()
    }

    /// Looks up the position of `k`, if present.
    pub fn find(&self, k: &K) -> (r: Option<usize>)
        requires
            self.wf(),
        ensures
            match r {
                Some(i) => i < self.spec_len() && self.key_seq()[i as int] == k@
                    && self.contains_key(k@) && self.index_of(k@) == i,
                None => !self.contains_key(k@),
            },
    {
        let ghost key_view = k@;
        let n = self.entries.len();
        let mut i: usize = 0;
        while i < n
            invariant
                self.wf(),
                n == self.spec_len(),
                i <= n,
                forall|j: int| 0 <= j < i ==> self.key_seq()[j] != key_view,
                key_view == k@,
            decreases n - i,
        {
            if self.entries[i].0.key_eq(k) {
                proof {
                    self.lemma_get_at(key_view, i as int);
                }
                return Some(i);
            }
            i += 1;
        }
        proof {
            if self.contains_key(key_view) {
                let j = choose|j: int|
                    0 <= j < self.key_seq().len() && self.key_seq()[j] == key_view;
                assert(self.key_seq()[j] != key_view);
            }
        }
        None
    }

    pub fn contains(&self, k: &K) -> (r: bool)
        requires
            self.wf(),
        ensures
            r == self.contains_key(k@),
    {
        self.find(k).is_some()
    }

    pub fn get(&self, k: &K) -> (r: Option<&V>)
        requires
            self.wf(),
        ensures
            match r {
                Some(v) => self.contains_key(k@) && *v == self.spec_get(k@),
                None => !self.contains_key(k@),
            },
    {
        match self.find(k) {
            Some(i) => Some(&self.entries[i].1),
            None => None,
        }
    }

    /// Inserts `v` under `k`; an existing entry with the same key view is
    /// replaced in place, keeping its position in the iteration order.
    pub fn insert(&mut self, k: K, v: V)
        requires
            old(self).wf(),
        ensures
            final(self).wf(),
            final(self).contains_key(k@),
            final(self).spec_get(k@) == v,
            // every other key keeps its mapping
            forall|k2: K::V| k2 != k@ ==>
                #[trigger] final(self).contains_key(k2) == old(self).contains_key(k2),
            forall|k2: K::V| k2 != k@ && old(self).contains_key(k2) ==>
                #[trigger] final(self).spec_get(k2) == old(self).spec_get(k2),
            // the shape of the change itself
            if old(self).contains_key(k@) {
                final(self).entries_seq()
                    =~= old(self).entries_seq().update(old(self).index_of(k@), (k, v))
            } else {
                final(self).entries_seq() =~= old(self).entries_seq().push((k, v))
            },
    {
        let pos = self.find(&k);
        match pos {
            Some(i) => {
                self.entries.set(i, (k, v));
                proof {
                    let ghost post = *self;
                    let ghost pre = *old(self);
                    assert(post.key_seq() =~= pre.key_seq().update(i as int, k@));
                    assert(post.key_seq() =~= pre.key_seq());
                    post.lemma_get_at(k@, i as int);
                    assert forall|k2: K::V| k2 != k@ implies
                        #[trigger] post.contains_key(k2) == pre.contains_key(k2)
                        && (pre.contains_key(k2) ==> post.spec_get(k2) == pre.spec_get(k2))
                    by {
                        if pre.contains_key(k2) {
                            pre.lemma_index_of(k2);
                            let j = pre.index_of(k2);
                            assert(post.key_seq()[j] == k2);
                            post.lemma_get_at(k2, j);
                            pre.lemma_get_at(k2, j);
                        } else if post.contains_key(k2) {
                            post.lemma_index_of(k2);
                            let j = post.index_of(k2);
                            assert(pre.key_seq()[j] == k2);
                        }
                    }

                    assert forall|k2: K::V| k2 != k@ && pre.contains_key(k2) implies
                        #[trigger] post.spec_get(k2) == pre.spec_get(k2)
                    by {
                        assert(post.contains_key(k2) == pre.contains_key(k2));
                    }
                }
            },
            None => {
                self.entries.push((k, v));
                proof {
                    let ghost post = *self;
                    let ghost pre = *old(self);
                    assert(post.key_seq() =~= pre.key_seq().push(k@));
                    assert(post.key_seq()[pre.spec_len() as int] == k@);
                    assert(post.wf()) by {
                        assert forall|i: int, j: int|
                            0 <= i < j < post.spec_len() implies
                            post.key_seq()[i] != post.key_seq()[j]
                        by {
                            if j < pre.spec_len() {
                                assert(pre.key_seq()[i] != pre.key_seq()[j]);
                            } else {
                                assert(post.key_seq()[j] == k@);
                                assert(post.key_seq()[i] == pre.key_seq()[i]);
                                assert(pre.key_seq().contains(pre.key_seq()[i]));
                            }
                        }
                    }
                    post.lemma_get_at(k@, pre.spec_len() as int);
                    assert forall|k2: K::V| k2 != k@ implies
                        #[trigger] post.contains_key(k2) == pre.contains_key(k2)
                        && (pre.contains_key(k2) ==> post.spec_get(k2) == pre.spec_get(k2))
                    by {
                        if pre.contains_key(k2) {
                            pre.lemma_index_of(k2);
                            let j = pre.index_of(k2);
                            assert(post.key_seq()[j] == k2);
                            post.lemma_get_at(k2, j);
                            pre.lemma_get_at(k2, j);
                        } else if post.contains_key(k2) {
                            post.lemma_index_of(k2);
                            let j = post.index_of(k2);
                            assert(j < pre.spec_len());
                            assert(pre.key_seq().contains(k2));
                        }
                    }

                    assert forall|k2: K::V| k2 != k@ && pre.contains_key(k2) implies
                        #[trigger] post.spec_get(k2) == pre.spec_get(k2)
                    by {
                        assert(post.contains_key(k2) == pre.contains_key(k2));
                    }
                }
            },
        }
    }

    /// Removes and returns the entry at position `i`, shifting later
    /// entries left.
    pub fn remove_at(&mut self, i: usize) -> (r: (K, V))
        requires
            old(self).wf(),
            i < old(self).spec_len(),
        ensures
            final(self).wf(),
            r == old(self).entries_seq()[i as int],
            final(self).entries_seq() =~= old(self).entries_seq().remove(i as int),
            !final(self).contains_key(old(self).key_seq()[i as int]),
            forall|k2: K::V| k2 != old(self).key_seq()[i as int] ==>
                #[trigger] final(self).contains_key(k2) == old(self).contains_key(k2),
            forall|k2: K::V| k2 != old(self).key_seq()[i as int] && old(self).contains_key(k2) ==>
                #[trigger] final(self).spec_get(k2) == old(self).spec_get(k2),
    {
        let r = self.entries.remove(i);
        proof {
            let ghost post = *self;
            let ghost pre = *old(self);
            let ghost kv = pre.key_seq()[i as int];
            assert(post.key_seq() =~= pre.key_seq().remove(i as int));
            assert forall|a: int, b: int|
                0 <= a < b < post.spec_len() implies
                post.key_seq()[a] != post.key_seq()[b]
            by {
                let a2 = if a < i { a } else { a + 1 };
                let b2 = if b < i { b } else { b + 1 };
                assert(post.key_seq()[a] == pre.key_seq()[a2]);
                assert(post.key_seq()[b] == pre.key_seq()[b2]);
            }
            if post.contains_key(kv) {
                let j = choose|j: int|
                    0 <= j < post.key_seq().len() && post.key_seq()[j] == kv;
                let j2 = if j < i { j } else { j + 1 };
                assert(pre.key_seq()[j2] == kv);
                assert(pre.key_seq()[i as int] == kv);
            }
            assert forall|k2: K::V| k2 != kv implies
                #[trigger] post.contains_key(k2) == pre.contains_key(k2)
                && (pre.contains_key(k2) ==> post.spec_get(k2) == pre.spec_get(k2))
            by {
                if pre.contains_key(k2) {
                    pre.lemma_index_of(k2);
                    let j = pre.index_of(k2);
                    let j2 = if j < i { j } else { j - 1 };
                    assert(post.key_seq()[j2] == k2);
                    post.lemma_get_at(k2, j2);
                    pre.lemma_get_at(k2, j);
                } else if post.contains_key(k2) {
                    post.lemma_index_of(k2);
                    let j = post.index_of(k2);
                    let j2 = if j < i { j } else { j + 1 };
                    assert(pre.key_seq()[j2] == k2);
                }
            }
            assert forall|k2: K::V| k2 != kv && pre.contains_key(k2) implies
                #[trigger] post.spec_get(k2) == pre.spec_get(k2)
            by {
                assert(post.contains_key(k2) == pre.contains_key(k2));
            }
        }
        r
    }

    /// Inserts an entry at position `i`, shifting later entries right.
    /// The key must not already be present.
    pub fn insert_at(&mut self, i: usize, k: K, v: V)
        requires
            old(self).wf(),
            !old(self).contains_key(k@),
            i <= old(self).spec_len(),
        ensures
            final(self).wf(),
            final(self).entries_seq() =~= old(self).entries_seq().insert(i as int, (k, v)),
            final(self).contains_key(k@),
            final(self).spec_get(k@) == v,
            forall|k2: K::V| k2 != k@ ==>
                #[trigger] final(self).contains_key(k2) == old(self).contains_key(k2),
            forall|k2: K::V| k2 != k@ && old(self).contains_key(k2) ==>
                #[trigger] final(self).spec_get(k2) == old(self).spec_get(k2),
    {
        self.entries.insert(i, (k, v));
        proof {
            let ghost post = *self;
            let ghost pre = *old(self);
            assert(post.key_seq() =~= pre.key_seq().insert(i as int, k@));
            assert forall|a: int, b: int|
                0 <= a < b < post.spec_len() implies
                post.key_seq()[a] != post.key_seq()[b]
            by {
                if a != i && b != i {
                    let a2 = if a < i { a } else { a - 1 };
                    let b2 = if b < i { b } else { b - 1 };
                    assert(post.key_seq()[a] == pre.key_seq()[a2]);
                    assert(post.key_seq()[b] == pre.key_seq()[b2]);
                } else if a == i {
                    let b2 = b - 1;
                    assert(post.key_seq()[b] == pre.key_seq()[b2]);
                    assert(pre.key_seq().contains(pre.key_seq()[b2]));
                } else {
                    let a2 = a;
                    assert(post.key_seq()[a] == pre.key_seq()[a2]);
                    assert(pre.key_seq().contains(pre.key_seq()[a2]));
                }
            }
            post.lemma_get_at(k@, i as int);
            assert forall|k2: K::V| k2 != k@ implies
                #[trigger] post.contains_key(k2) == pre.contains_key(k2)
                && (pre.contains_key(k2) ==> post.spec_get(k2) == pre.spec_get(k2))
            by {
                if pre.contains_key(k2) {
                    pre.lemma_index_of(k2);
                    let j = pre.index_of(k2);
                    let j2 = if j < i { j } else { j + 1 };
                    assert(post.key_seq()[j2] == k2);
                    post.lemma_get_at(k2, j2);
                    pre.lemma_get_at(k2, j);
                    assert(post.entries_seq()[j2] == pre.entries_seq()[j]);
                } else if post.contains_key(k2) {
                    post.lemma_index_of(k2);
                    let j = post.index_of(k2);
                    if j != i {
                        let j2 = if j < i { j } else { j - 1 };
                        assert(pre.key_seq()[j2] == k2);
                        assert(pre.key_seq().contains(k2));
                    } else {
                        assert(post.key_seq()[j] == k@);
                    }
                }
            }
            assert forall|k2: K::V| k2 != k@ && pre.contains_key(k2) implies
                #[trigger] post.spec_get(k2) == pre.spec_get(k2)
            by {
                assert(post.contains_key(k2) == pre.contains_key(k2));
            }
        }
    }

    /// The key at position `i` of the iteration order.
    pub fn key_at(&self, i: usize) -> (r: &K)
        requires
            i < self.spec_len(),
        ensures
            r@ == self.key_seq()[i as int],
            r == self.entries_seq()[i as int].0,
    {
        &self.entries[i].0
    }

    /// The value at position `i` of the iteration order.
    pub fn value_at(&self, i: usize) -> (r: &V)
        requires
            i < self.spec_len(),
        ensures
            r == self.entries_seq()[i as int].1,
    {
        &self.entries[i].1
    }
}

} // verus!
