//! Association tables keyed by byte strings, the backing store for every map
//! in the service: node ownership, commitments, expiries, resolution records.
//! Keys are held in insertion order, are pairwise distinct, and are looked up
//! by linear scan; the table is abstracted as a `Map` from key contents to
//! value contents.

use vstd::prelude::*;
use crate::bytes::bytes_eq;

verus! {

/// The map denoted by parallel key and value rows: later rows win, so with
/// distinct keys each key maps to the value beside it.
spec fn kv_map<T>(keys: Seq<Seq<u8>>, vals: Seq<T>) -> Map<Seq<u8>, T>
    decreases keys.len(),
{
    if keys.len() == 0 || keys.len() != vals.len() {
        Map::empty()
    } else {
        kv_map(keys.drop_last(), vals.drop_last()).insert(keys.last(), vals.last())
    }
}

proof fn lemma_kv_contains<T>(keys: Seq<Seq<u8>>, vals: Seq<T>, k: Seq<u8>)
    requires
        keys.len() == vals.len(),
    ensures
        kv_map(keys, vals).contains_key(k) <==> keys.contains(k),
    decreases keys.len(),
{
    if keys.len() > 0 {
        lemma_kv_contains(keys.drop_last(), vals.drop_last(), k);
        if keys.contains(k) {
            let i = choose|i: int| 0 <= i < keys.len() && keys[i] == k;
            if i < keys.len() - 1 {
                assert(keys.drop_last().contains(k)) by {
                    assert(keys.drop_last()[i] == k);
                }
            }
        } else {
            assert(!keys.drop_last().contains(k)) by {
                if keys.drop_last().contains(k) {
                    let i = choose|i: int|
                        0 <= i < keys.drop_last().len() && keys.drop_last()[i] == k;
                    assert(keys[i] == k);
                }
            }
        }
    }
}

proof fn lemma_kv_index<T>(keys: Seq<Seq<u8>>, vals: Seq<T>, i: int)
    requires
        keys.len() == vals.len(),
        keys.no_duplicates(),
        0 <= i < keys.len(),
    ensures
        kv_map(keys, vals).contains_key(keys[i]),
        kv_map(keys, vals)[keys[i]] == vals[i],
    decreases keys.len(),
{
    lemma_kv_contains(keys, vals, keys[i]);
    if i < keys.len() - 1 {
        assert(keys[i] != keys.last());
        lemma_kv_index(keys.drop_last(), vals.drop_last(), i);
    }
}

proof fn lemma_kv_push<T>(keys: Seq<Seq<u8>>, vals: Seq<T>, k: Seq<u8>, v: T)
    requires
        keys.len() == vals.len(),
    ensures
        kv_map(keys.push(k), vals.push(v)) == kv_map(keys, vals).insert(k, v),
{
    assert(keys.push(k).drop_last() =~= keys);
    assert(vals.push(v).drop_last() =~= vals);
}

proof fn lemma_kv_update<T>(keys: Seq<Seq<u8>>, vals: Seq<T>, i: int, v: T)
    requires
        keys.len() == vals.len(),
        keys.no_duplicates(),
        0 <= i < keys.len(),
    ensures
        kv_map(keys, vals.update(i, v)) == kv_map(keys, vals).insert(keys[i], v),
    decreases keys.len(),
{
    let n = keys.len() - 1;
    if i == n {
        assert(vals.update(i, v).drop_last() =~= vals.drop_last());
        assert(kv_map(keys, vals.update(i, v)) =~= kv_map(keys, vals).insert(keys[i], v));
    } else {
        assert(vals.update(i, v).drop_last() =~= vals.drop_last().update(i, v));
        lemma_kv_update(keys.drop_last(), vals.drop_last(), i, v);
        assert(keys[i] != keys[n]);
        assert(kv_map(keys, vals.update(i, v)) =~= kv_map(keys, vals).insert(keys[i], v));
    }
}

proof fn lemma_kv_remove<T>(keys: Seq<Seq<u8>>, vals: Seq<T>, i: int)
    requires
        keys.len() == vals.len(),
        keys.no_duplicates(),
        0 <= i < keys.len(),
    ensures
        kv_map(keys.remove(i), vals.remove(i)) == kv_map(keys, vals).remove(keys[i]),
    decreases keys.len(),
{
    let n = keys.len() - 1;
    if i == n {
        assert(keys.remove(i) =~= keys.drop_last());
        assert(vals.remove(i) =~= vals.drop_last());
        lemma_kv_contains(keys.drop_last(), vals.drop_last(), keys[i]);
        assert(!keys.drop_last().contains(keys[i])) by {
            if keys.drop_last().contains(keys[i]) {
                let j = choose|j: int|
                    0 <= j < keys.drop_last().len() && keys.drop_last()[j] == keys[i];
                assert(keys[j] == keys[i]);
            }
        }
        assert(kv_map(keys.drop_last(), vals.drop_last()) =~= kv_map(keys, vals).remove(
            keys[i],
        ));
    } else {
        assert(keys.remove(i).drop_last() =~= keys.drop_last().remove(i));
        assert(vals.remove(i).drop_last() =~= vals.drop_last().remove(i));
        assert(keys.remove(i).last() == keys.last());
        assert(vals.remove(i).last() == vals.last());
        lemma_kv_remove(keys.drop_last(), vals.drop_last(), i);
        assert(keys[i] != keys[n]);
        assert(kv_map(keys.remove(i), vals.remove(i)) =~= kv_map(keys, vals).remove(keys[i]));
    }
}

/// Every element of the deep view of a vector is the deep view of the element.
pub proof fn lemma_vec_deep_view<T: DeepView>(v: &Vec<T>)
    ensures
        v.deep_view().len() == v@.len(),
        forall|i: int| 0 <= i < v@.len() ==> #[trigger] v.deep_view()[i] == v@[i].deep_view(),
{
}

/// A table from byte-string keys to values, keys pairwise distinct, viewed as
/// a `Map` from key contents to value contents.
pub struct AssocMap<V> {
    keys: Vec<Vec<u8>>,
    vals: Vec<V>,
}

impl<V: DeepView> View for AssocMap<V> {
    type V = Map<Seq<u8>, V::V>;

    closed spec fn view(&self) -> Map<Seq<u8>, V::V> {
        kv_map(self.keys.deep_view(), self.vals.deep_view())
    }
}

impl<V: DeepView> AssocMap<V> {
    /// The keys, in insertion order.
    pub closed spec fn key_seq(self) -> Seq<Seq<u8>> {
        self.keys.deep_view()
    }

    /// Number of entries.
    pub closed spec fn num(self) -> nat {
        self.keys.deep_view().len()
    }

    /// Rows are parallel and keys are pairwise distinct.
    pub closed spec fn wf(self) -> bool {
        self.keys.deep_view().len() == self.vals.deep_view().len()
            && self.keys.deep_view().no_duplicates()
    }

    pub proof fn lemma_num_contains(self, k: Seq<u8>)
        requires
            self.wf(),
        ensures
            self@.contains_key(k) <==> self.key_seq().contains(k),
            self.num() == self.key_seq().len(),
        decreases self.key_seq().len(),
    {
        lemma_kv_contains(self.keys.deep_view(), self.vals.deep_view(), k);
    }

    pub fn new() -> (m: Self)
        ensures
            m.wf(),
            m@ == Map::<Seq<u8>, V::V>::empty(),
            m.num() == 0,
    {
        AssocMap { keys: Vec::new(), vals: Vec::new() }
    }

    pub fn len(&self) -> (n: usize)
        ensures
            n == self.num(),
    {
        proof {
            lemma_vec_deep_view(&self.keys);
        }
        self.keys.len()
    }

    /// Index of `k` among the keys, if present.
    fn find(&self, k: &Vec<u8>) -> (r: Option<usize>)
        ensures
            match r {
                Some(i) => i < self.key_seq().len() && self.key_seq()[i as int] == k@,
                None => !self.key_seq().contains(k@),
            },
    {
        proof {
            lemma_vec_deep_view(&self.keys);
        }
        let mut i: usize = 0;
        while i < self.keys.len()
            invariant
                i <= self.keys.len(),
                self.key_seq().len() == self.keys@.len(),
                forall|j: int|
                    0 <= j < self.keys@.len() ==> #[trigger] self.key_seq()[j]
                        == self.keys@[j].deep_view(),
                forall|j: int| 0 <= j < i ==> self.key_seq()[j] != k@,
            decreases self.keys.len() - i,
        {
            if bytes_eq(&self.keys[i], k) {
                proof {
                    assert(self.keys@[i as int].deep_view() =~= self.keys@[i as int]@);
                }
                return Some(i);
            }
            proof {
                assert(self.keys@[i as int].deep_view() =~= self.keys@[i as int]@);
            }
            i = i + 1;
        }
        None
    }

    pub fn contains_key(&self, k: &Vec<u8>) -> (r: bool)
        requires
            self.wf(),
        ensures
            r == self@.contains_key(k@),
    {
        proof {
            self.lemma_num_contains(k@);
        }
        self.find(k).is_some()
    }

    pub fn get(&self, k: &Vec<u8>) -> (r: Option<&V>)
        requires
            self.wf(),
        ensures
            match r {
                Some(v) => self@.contains_key(k@) && v.deep_view() == self@[k@],
                None => !self@.contains_key(k@),
            },
    {
        proof {
            self.lemma_num_contains(k@);
        }
        match self.find(k) {
            Some(i) => {
                proof {
                    lemma_kv_index(self.keys.deep_view(), self.vals.deep_view(), i as int);
                    lemma_vec_deep_view(&self.vals);
                }
                Some(&self.vals[i])
            },
            None => None,
        }
    }

    /// Maps `k` to `v`, replacing any previous value.
    pub fn insert(&mut self, k: Vec<u8>, v: V)
        requires
            old(self).wf(),
        ensures
            final(self).wf(),
            final(self)@ == old(self)@.insert(k@, v.deep_view()),
            final(self).num() == if old(self)@.contains_key(k@) {
                old(self).num()
            } else {
                old(self).num() + 1
            },
    {
        proof {
            self.lemma_num_contains(k@);
        }
        match self.find(&k) {
            Some(i) => {
                proof {
                    lemma_kv_update(
                        self.keys.deep_view(),
                        self.vals.deep_view(),
                        i as int,
                        v.deep_view(),
                    );
                    lemma_vec_deep_view(&self.vals);
                }
                self.vals[i] = v;
                proof {
                    lemma_vec_deep_view(&self.vals);
                    assert(self.vals.deep_view() =~= old(self).vals.deep_view().update(
                        i as int,
                        v.deep_view(),
                    ));
                }
            },
            None => {
                proof {
                    lemma_kv_push(self.keys.deep_view(), self.vals.deep_view(), k@, v.deep_view());
                }
                let ghost old_keys = self.keys.deep_view();
                let ghost old_vals = self.vals.deep_view();
                self.keys.push(k);
                self.vals.push(v);
                proof {
                    lemma_vec_deep_view(&self.keys);
                    lemma_vec_deep_view(&self.vals);
                    assert(self.keys@[self.keys@.len() - 1].deep_view() =~= k@);
                    assert(self.keys.deep_view() =~= old_keys.push(k@));
                    assert(self.vals.deep_view() =~= old_vals.push(v.deep_view()));
                }
            },
        }
    }

    /// Removes the entry for `k`, if any.
    pub fn remove(&mut self, k: &Vec<u8>)
        requires
            old(self).wf(),
        ensures
            final(self).wf(),
            final(self)@ == old(self)@.remove(k@),
            final(self).num() <= old(self).num(),
            final(self).num() == if old(self)@.contains_key(k@) {
                (old(self).num() - 1) as nat
            } else {
                old(self).num()
            },
    {
        proof {
            self.lemma_num_contains(k@);
        }
        match self.find(k) {
            Some(i) => {
                proof {
                    lemma_kv_remove(self.keys.deep_view(), self.vals.deep_view(), i as int);
                    lemma_vec_deep_view(&self.keys);
                    lemma_vec_deep_view(&self.vals);
                }
                let ghost old_keys = self.keys.deep_view();
                let ghost old_vals = self.vals.deep_view();
                self.keys.remove(i);
                self.vals.remove(i);
                proof {
                    lemma_vec_deep_view(&self.keys);
                    lemma_vec_deep_view(&self.vals);
                    assert(self.keys.deep_view() =~= old_keys.remove(i as int));
                    assert(self.vals.deep_view() =~= old_vals.remove(i as int));
                    lemma_remove_no_duplicates(old_keys, i as int);
                }
            },
            None => {
                proof {
                    assert(old(self)@.remove(k@) =~= old(self)@);
                }
            },
        }
    }
}

/// `r` lists the table's entries: the keys in insertion order, each beside
/// the value the table maps it to.
pub open spec fn is_entry_rows<V: DeepView>(r: Seq<(Vec<u8>, V)>, m: AssocMap<V>) -> bool {
    &&& r.len() == m.num()
    &&& forall|i: int|
        0 <= i < r.len() ==> (#[trigger] r[i]).0@ == m.key_seq()[i] && m@.contains_key(
            m.key_seq()[i],
        ) && r[i].1.deep_view() == m@[m.key_seq()[i]]
}

impl AssocMap<Vec<u8>> {
    /// The entries as plain rows, for external observers.
    pub fn pairs(&self) -> (r: Vec<(Vec<u8>, Vec<u8>)>)
        requires
            self.wf(),
        ensures
            is_entry_rows(r@, *self),
    {
        proof {
            lemma_vec_deep_view(&self.keys);
            lemma_vec_deep_view(&self.vals);
        }
        let mut r: Vec<(Vec<u8>, Vec<u8>)> = Vec::new();
        let mut i: usize = 0;
        while i < self.keys.len()
            invariant
                self.wf(),
                i <= self.keys@.len(),
                r@.len() == i,
                self.key_seq().len() == self.keys@.len(),
                self.vals.deep_view().len() == self.vals@.len(),
                self.keys@.len() == self.vals@.len(),
                forall|j: int|
                    0 <= j < self.keys@.len() ==> #[trigger] self.key_seq()[j]
                        == self.keys@[j].deep_view(),
                forall|j: int|
                    0 <= j < self.vals@.len() ==> #[trigger] self.vals.deep_view()[j]
                        == self.vals@[j].deep_view(),
                forall|j: int|
                    0 <= j < i ==> (#[trigger] r@[j]).0@ == self.key_seq()[j]
                        && self@.contains_key(self.key_seq()[j]) && r@[j].1@
                        == self@[self.key_seq()[j]],
            decreases self.keys@.len() - i,
        {
            proof {
                lemma_kv_index(self.keys.deep_view(), self.vals.deep_view(), i as int);
                assert(self.keys@[i as int].deep_view() =~= self.keys@[i as int]@);
                assert(self.vals@[i as int].deep_view() =~= self.vals@[i as int]@);
            }
            r.push(
                (
                    crate::bytes::bytes_clone(&self.keys[i]),
                    crate::bytes::bytes_clone(&self.vals[i]),
                ),
            );
            i = i + 1;
        }
        proof {
            assert forall|j: int| 0 <= j < r@.len() implies (#[trigger] r@[j]).1.deep_view()
                == r@[j].1@ by {
                assert(r@[j].1.deep_view() =~= r@[j].1@);
            }
        }
        r
    }
}

impl AssocMap<u64> {
    /// The entries as plain rows, for external observers.
    pub fn pairs(&self) -> (r: Vec<(Vec<u8>, u64)>)
        requires
            self.wf(),
        ensures
            is_entry_rows(r@, *self),
    {
        proof {
            lemma_vec_deep_view(&self.keys);
            lemma_vec_deep_view(&self.vals);
        }
        let mut r: Vec<(Vec<u8>, u64)> = Vec::new();
        let mut i: usize = 0;
        while i < self.keys.len()
            invariant
                self.wf(),
                i <= self.keys@.len(),
                r@.len() == i,
                self.key_seq().len() == self.keys@.len(),
                self.vals.deep_view().len() == self.vals@.len(),
                self.keys@.len() == self.vals@.len(),
                forall|j: int|
                    0 <= j < self.keys@.len() ==> #[trigger] self.key_seq()[j]
                        == self.keys@[j].deep_view(),
                forall|j: int|
                    0 <= j < self.vals@.len() ==> #[trigger] self.vals.deep_view()[j]
                        == self.vals@[j],
                forall|j: int|
                    0 <= j < i ==> (#[trigger] r@[j]).0@ == self.key_seq()[j]
                        && self@.contains_key(self.key_seq()[j]) && r@[j].1
                        == self@[self.key_seq()[j]],
            decreases self.keys@.len() - i,
        {
            proof {
                lemma_kv_index(self.keys.deep_view(), self.vals.deep_view(), i as int);
                assert(self.keys@[i as int].deep_view() =~= self.keys@[i as int]@);
            }
            r.push((crate::bytes::bytes_clone(&self.keys[i]), self.vals[i]));
            i = i + 1;
        }
        proof {
            assert(forall|j: int|
                0 <= j < r@.len() ==> (#[trigger] r@[j]).1.deep_view() == r@[j].1);
        }
        r
    }
}

/// Removing an element of a duplicate-free sequence keeps it duplicate-free.
pub proof fn lemma_remove_no_duplicates_pub(s: Seq<Seq<u8>>, i: int)
    requires
        s.no_duplicates(),
        0 <= i < s.len(),
    ensures
        s.remove(i).no_duplicates(),
{
    lemma_remove_no_duplicates(s, i);
}

proof fn lemma_remove_no_duplicates(s: Seq<Seq<u8>>, i: int)
    requires
        s.no_duplicates(),
        0 <= i < s.len(),
    ensures
        s.remove(i).no_duplicates(),
{
    let t = s.remove(i);
    assert forall|p: int, q: int| 0 <= p < t.len() && 0 <= q < t.len() && p != q implies t[p]
        != t[q] by {
        let p0 = if p < i {
            p
        } else {
            p + 1
        };
        let q0 = if q < i {
            q
        } else {
            q + 1
        };
        assert(t[p] == s[p0]);
        assert(t[q] == s[q0]);
    }
}


} // verus!
