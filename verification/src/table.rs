//! A small association table with a `Map` view.
//!
//! Every keyed collection in this crate (the flow table, tracker states,
//! reassembly buffers, decoder connections, pending-request tables) is a
//! `Table`: a vector of key/value pairs with distinct keys, specified by
//! the finite map it denotes.

use vstd::prelude::*;

verus! {

/// Key types usable in a `Table`: equality is decidable and agrees with
/// mathematical equality of the values.
pub trait KeyT: Sized {
    fn key_eq(&self, other: &Self) -> (r: bool)
        ensures
            r == (self == other),
    ;
}

/// An association table from `K` to `V` with distinct keys.
pub struct Table<K, V> {
    vec: Vec<(K, V)>,
}

impl<K: KeyT, V> Table<K, V> {
    /// The map a sequence of pairs denotes; later pairs win.
    pub open spec fn map_of(s: Seq<(K, V)>) -> Map<K, V>
        decreases s.len(),
    {
        if s.len() == 0 {
            Map::empty()
        } else {
            Self::map_of(s.drop_last()).insert(s.last().0, s.last().1)
        }
    }

    /// The finite map this table holds.
    pub closed spec fn view(&self) -> Map<K, V> {
        Self::map_of(self.vec@)
    }

    /// Well-formed: no key occurs twice.
    pub closed spec fn wf(&self) -> bool {
        forall|i: int, j: int|
            0 <= i < j < self.vec@.len() ==> (#[trigger] self.vec@[i]).0 != (#[trigger] self.vec@[j]).0
    }

    proof fn lemma_map_of_contains(s: Seq<(K, V)>, k: K)
        ensures
            Self::map_of(s).contains_key(k) <==> exists|i: int| 0 <= i < s.len() && (#[trigger] s[i]).0 == k,
        decreases s.len(),
    {
        if s.len() > 0 {
            Self::lemma_map_of_contains(s.drop_last(), k);
            if s.last().0 == k {
                assert((#[trigger] s[s.len() - 1]).0 == k);
            } else if Self::map_of(s).contains_key(k) {
                let i = choose|i: int| 0 <= i < s.drop_last().len() && (#[trigger] s.drop_last()[i]).0 == k;
                assert((#[trigger] s[i]).0 == k);
            } else {
                assert(forall|i: int| 0 <= i < s.len() - 1 ==> (#[trigger] s[i]) == s.drop_last()[i]);
            }
        }
    }

    proof fn lemma_map_of_index(s: Seq<(K, V)>, i: int)
        requires
            0 <= i < s.len(),
            forall|x: int, y: int| 0 <= x < y < s.len() ==> (#[trigger] s[x]).0 != (#[trigger] s[y]).0,
        ensures
            Self::map_of(s).contains_key(s[i].0),
            Self::map_of(s)[s[i].0] == s[i].1,
        decreases s.len(),
    {
        if i == s.len() - 1 {
        } else {
            assert(forall|x: int| 0 <= x < s.len() - 1 ==> (#[trigger] s.drop_last()[x]) == s[x]);
            Self::lemma_map_of_index(s.drop_last(), i);
            assert(s[i].0 != s.last().0);
        }
    }

    proof fn lemma_map_of_len(s: Seq<(K, V)>)
        requires
            forall|x: int, y: int| 0 <= x < y < s.len() ==> (#[trigger] s[x]).0 != (#[trigger] s[y]).0,
        ensures
            Self::map_of(s).dom().finite(),
            Self::map_of(s).len() == s.len(),
        decreases s.len(),
    {
        if s.len() > 0 {
            let d = s.drop_last();
            assert(forall|x: int| 0 <= x < d.len() ==> (#[trigger] d[x]) == s[x]);
            Self::lemma_map_of_len(d);
            Self::lemma_map_of_contains(d, s.last().0);
            assert(!Self::map_of(d).contains_key(s.last().0));
            assert(Self::map_of(s).dom() =~= Self::map_of(d).dom().insert(s.last().0));
        } else {
            assert(Self::map_of(s).dom() =~= Set::<K>::empty());
        }
    }

    proof fn lemma_map_of_update(s: Seq<(K, V)>, i: int, v: V)
        requires
            0 <= i < s.len(),
            forall|x: int, y: int| 0 <= x < y < s.len() ==> (#[trigger] s[x]).0 != (#[trigger] s[y]).0,
        ensures
            Self::map_of(s.update(i, (s[i].0, v))) =~= Self::map_of(s).insert(s[i].0, v),
        decreases s.len(),
    {
        let t = s.update(i, (s[i].0, v));
        if i == s.len() - 1 {
            assert(t.drop_last() =~= s.drop_last());
        } else {
            assert(t.drop_last() =~= s.drop_last().update(i, (s[i].0, v)));
            assert(forall|x: int| 0 <= x < s.len() - 1 ==> (#[trigger] s.drop_last()[x]) == s[x]);
            Self::lemma_map_of_update(s.drop_last(), i, v);
            assert(s[i].0 != s.last().0);
        }
    }

    proof fn lemma_map_of_remove(s: Seq<(K, V)>, i: int)
        requires
            0 <= i < s.len(),
            forall|x: int, y: int| 0 <= x < y < s.len() ==> (#[trigger] s[x]).0 != (#[trigger] s[y]).0,
        ensures
            Self::map_of(s.remove(i)) =~= Self::map_of(s).remove(s[i].0),
        decreases s.len(),
    {
        let t = s.remove(i);
        Self::lemma_map_of_contains(s.drop_last(), s.last().0);
        if i == s.len() - 1 {
            assert(t =~= s.drop_last());
            assert(!Self::map_of(s.drop_last()).contains_key(s[i].0));
            assert(Self::map_of(s).remove(s[i].0) =~= Self::map_of(s.drop_last()));
        } else {
            assert(t.drop_last() =~= s.drop_last().remove(i));
            assert(t.last() == s.last());
            assert(forall|x: int| 0 <= x < s.len() - 1 ==> (#[trigger] s.drop_last()[x]) == s[x]);
            Self::lemma_map_of_remove(s.drop_last(), i);
            assert(s[i].0 != s.last().0);
            assert(Self::map_of(t) =~= Self::map_of(s.drop_last()).remove(s[i].0).insert(s.last().0, s.last().1));
        }
    }

    /// An empty table.
    pub fn new() -> (r: Table<K, V>)
        ensures
            r@ == Map::<K, V>::empty(),
            r.wf(),
    {
        let r = Table { vec: Vec::new() };
        proof {
            assert(r@ =~= Map::<K, V>::empty());
        }
        r
    }

    /// The index at which `k` is stored, if any.
    fn find(&self, k: &K) -> (r: Option<usize>)
        requires
            self.wf(),
        ensures
            match r {
                Some(i) => i < self.vec@.len() && self.vec@[i as int].0 == *k && self@.contains_key(*k)
                    && self@[*k] == self.vec@[i as int].1,
                None => !self@.contains_key(*k),
            },
    {
        let ghost s = self.vec@;
        let mut i: usize = 0;
        while i < self.vec.len()
            invariant
                i <= s.len(),
                s == self.vec@,
                self.wf(),
                forall|j: int| 0 <= j < i ==> (#[trigger] s[j]).0 != *k,
            decreases s.len() - i,
        {
            if self.vec[i].0.key_eq(k) {
                proof {
                    Self::lemma_map_of_index(s, i as int);
                }
                return Some(i);
            }
            i = i + 1;
        }
        proof {
            Self::lemma_map_of_contains(s, *k);
        }
        None
    }

    /// The number of entries.
    pub fn len(&self) -> (r: usize)
        requires
            self.wf(),
        ensures
            r == self@.len(),
            self@.dom().finite(),
    {
        proof {
            Self::lemma_map_of_len(self.vec@);
        }
        self.vec.len()
    }

    /// Whether `k` is present.
    pub fn contains(&self, k: &K) -> (r: bool)
        requires
            self.wf(),
        ensures
            r == self@.contains_key(*k),
    {
        self.find(k).is_some()
    }

    /// The value bound to `k`, if any.
    pub fn get(&self, k: &K) -> (r: Option<&V>)
        requires
            self.wf(),
        ensures
            match r {
                Some(v) => self@.contains_key(*k) && *v == self@[*k],
                None => !self@.contains_key(*k),
            },
    {
        match self.find(k) {
            Some(i) => Some(&self.vec[i].1),
            None => None,
        }
    }

    /// Bind `k` to `v`, replacing any previous binding.
    pub fn insert(&mut self, k: K, v: V)
        requires
            old(self).wf(),
        ensures
            final(self).wf(),
            final(self)@ == old(self)@.insert(k, v),
    {
        let ghost s = self.vec@;
        match self.find(&k) {
            Some(i) => {
                proof {
                    Self::lemma_map_of_update(s, i as int, v);
                }
                let _old = self.vec.remove(i);
                self.vec.insert(i, (k, v));
                proof {
                    assert(self.vec@ =~= s.update(i as int, (s[i as int].0, v)));
                    assert(self@ =~= old(self)@.insert(k, v));
                }
            },
            None => {
                self.vec.push((k, v));
                proof {
                    assert(self.vec@.drop_last() =~= s);
                    Self::lemma_map_of_contains(s, k);
                    assert(forall|j: int| 0 <= j < s.len() ==> (#[trigger] s[j]).0 != k);
                }
            },
        }
    }

    /// Remove and return the value bound to `k`.
    pub fn remove(&mut self, k: &K) -> (r: Option<V>)
        requires
            old(self).wf(),
        ensures
            final(self).wf(),
            final(self)@ == old(self)@.remove(*k),
            match r {
                Some(v) => old(self)@.contains_key(*k) && v == old(self)@[*k],
                None => !old(self)@.contains_key(*k),
            },
    {
        let ghost s = self.vec@;
        match self.find(k) {
            Some(i) => {
                proof {
                    Self::lemma_map_of_remove(s, i as int);
                }
                let (_k, v) = self.vec.remove(i);
                proof {
                    assert(self@ =~= old(self)@.remove(*k));
                }
                Some(v)
            },
            None => {
                proof {
                    Self::lemma_map_of_contains(s, *k);
                    assert(self@ =~= old(self)@.remove(*k));
                }
                None
            },
        }
    }
}

impl<K: KeyT + Copy, V> Table<K, V> {
    /// All keys, each exactly once.
    pub fn keys(&self) -> (r: Vec<K>)
        requires
            self.wf(),
        ensures
            r@.len() == self@.len(),
            forall|i: int| 0 <= i < r@.len() ==> self@.contains_key(#[trigger] r@[i]),
            forall|k: K| self@.contains_key(k) ==> r@.contains(k),
            forall|i: int, j: int| 0 <= i < j < r@.len() ==> r@[i] != r@[j],
    {
        let ghost s = self.vec@;
        let mut r: Vec<K> = Vec::new();
        let mut i: usize = 0;
        proof {
            Self::lemma_map_of_len(s);
        }
        while i < self.vec.len()
            invariant
                i <= s.len(),
                s == self.vec@,
                self.wf(),
                r@.len() == i,
                forall|j: int| 0 <= j < i ==> r@[j] == (#[trigger] s[j]).0,
            decreases s.len() - i,
        {
            r.push(self.vec[i].0);
            i = i + 1;
        }
        proof {
            assert forall|j: int| 0 <= j < r@.len() implies self@.contains_key(#[trigger] r@[j]) by {
                Self::lemma_map_of_index(s, j);
            }
            assert forall|k: K| self@.contains_key(k) implies r@.contains(k) by {
                Self::lemma_map_of_contains(s, k);
                let j = choose|j: int| 0 <= j < s.len() && (#[trigger] s[j]).0 == k;
                assert(r@[j] == k);
            }
            assert forall|i: int, j: int| 0 <= i < j < r@.len() implies r@[i] != r@[j] by {
                assert(r@[i] == (#[trigger] s[i]).0 && r@[j] == (#[trigger] s[j]).0);
            }
        }
        r
    }
}

} // verus!
