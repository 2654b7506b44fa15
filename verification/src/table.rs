//! A small association table with map semantics.
//!
//! The cache engine and the registry keep their state in these tables: a
//! vector of entries with pairwise distinct keys, viewed as a finite `Map`
//! from key views to values. Keys carry their own executable equality,
//! which must decide equality of views.

use vstd::prelude::*;

verus! {

/// A key usable in a [`Table`]: it has a mathematical view, and an
/// executable equality that decides equality of views.
pub trait TableKey: View + Sized {
    /// Decides whether two keys are the same key, i.e. have the same view.
    fn key_eq(&self, other: &Self) -> (r: bool)
        ensures
            r == (self@ == other@),
    ;
}

impl TableKey for u64 {
    fn key_eq(&self, other: &Self) -> (r: bool)
        ensures
            r == (self@ == other@),
    {
        *self == *other
    }
}

/// A finite mapping from keys to values, with at most one entry per key.
pub struct Table<K: TableKey, V> {
    entries: Vec<(K, V)>,
}

impl<K: TableKey, V> Table<K, V> {
    /// Entries have pairwise distinct keys, as views.
    spec fn distinct(s: Seq<(K, V)>) -> bool {
        forall|i: int, j: int| 0 <= i < j < s.len() ==> s[i].0@ != s[j].0@
    }

    /// The map an entry sequence denotes; later entries win, though with
    /// distinct keys the order never matters.
    spec fn seq_to_map(s: Seq<(K, V)>) -> Map<K::V, V>
        decreases s.len(),
    {
        if s.len() == 0 {
            Map::empty()
        } else {
            Self::seq_to_map(s.drop_last()).insert(s.last().0@, s.last().1)
        }
    }

    #[verifier::type_invariant]
    spec fn wf(&self) -> bool {
        Self::distinct(self.entries@)
    }

    pub closed spec fn view(&self) -> Map<K::V, V> {
        Self::seq_to_map(self.entries@)
    }

    proof fn lemma_contains(s: Seq<(K, V)>, k: K::V)
        ensures
            Self::seq_to_map(s).contains_key(k) <==> (exists|i: int|
                0 <= i < s.len() && s[i].0@ == k),
        decreases s.len(),
    {
        if s.len() > 0 {
            Self::lemma_contains(s.drop_last(), k);
            if s.last().0@ == k {
                assert(s[s.len() - 1].0@ == k);
            } else if Self::seq_to_map(s).contains_key(k) {
                let i = choose|i: int| 0 <= i < s.drop_last().len() && s.drop_last()[i].0@ == k;
                assert(s[i].0@ == k);
            } else if exists|i: int| 0 <= i < s.len() && s[i].0@ == k {
                let i = choose|i: int| 0 <= i < s.len() && s[i].0@ == k;
                assert(s.drop_last()[i].0@ == k);
            }
        }
    }

    proof fn lemma_index(s: Seq<(K, V)>, i: int)
        requires
            Self::distinct(s),
            0 <= i < s.len(),
        ensures
            Self::seq_to_map(s).contains_key(s[i].0@),
            Self::seq_to_map(s)[s[i].0@] == s[i].1,
        decreases s.len(),
    {
        assert(Self::distinct(s.drop_last())) by {
            assert(forall|x: int, y: int|
                0 <= x < y < s.drop_last().len() ==> s.drop_last()[x].0@ == s[x].0@
                    && s.drop_last()[y].0@ == s[y].0@);
        }
        if i < s.len() - 1 {
            Self::lemma_index(s.drop_last(), i);
            assert(s.drop_last()[i] == s[i]);
            assert(s[i].0@ != s.last().0@);
        }
    }

    proof fn lemma_remove(s: Seq<(K, V)>, i: int)
        requires
            Self::distinct(s),
            0 <= i < s.len(),
        ensures
            Self::distinct(s.remove(i)),
            Self::seq_to_map(s.remove(i)) == Self::seq_to_map(s).remove(s[i].0@),
        decreases s.len(),
    {
        assert(Self::distinct(s.remove(i))) by {
            assert(forall|x: int|
                0 <= x < s.remove(i).len() ==> s.remove(i)[x] == (if x < i {
                    s[x]
                } else {
                    s[x + 1]
                }));
        }
        assert(Self::distinct(s.drop_last())) by {
            assert(forall|x: int|
                0 <= x < s.drop_last().len() ==> s.drop_last()[x] == s[x]);
        }
        if i == s.len() - 1 {
            assert(s.remove(i) =~= s.drop_last());
            Self::lemma_contains(s.drop_last(), s[i].0@);
            assert(forall|x: int|
                0 <= x < s.drop_last().len() ==> s.drop_last()[x].0@ != s[i].0@);
            assert(Self::seq_to_map(s.drop_last()) =~= Self::seq_to_map(s).remove(s[i].0@));
        } else {
            Self::lemma_remove(s.drop_last(), i);
            assert(s.remove(i).drop_last() =~= s.drop_last().remove(i));
            assert(s.remove(i).last() == s.last());
            assert(Self::seq_to_map(s.remove(i)) == Self::seq_to_map(
                s.drop_last().remove(i),
            ).insert(s.last().0@, s.last().1));
            assert(s[i].0@ != s.last().0@);
            assert(Self::seq_to_map(s.drop_last()).remove(s[i].0@).insert(
                s.last().0@,
                s.last().1,
            ) =~= Self::seq_to_map(s).remove(s[i].0@));
        }
    }

    /// The empty table.
    pub fn new() -> (r: Self)
        ensures
            r@ == Map::<K::V, V>::empty(),
    {
        Table { entries: Vec::new() }
    }

    /// Finds the entry index of a key, scanning left to right.
    fn find_index(&self, key: &K) -> (r: Option<usize>)
        ensures
            match r {
                Some(i) => i < self.entries@.len() && self.entries@[i as int].0@ == key@,
                None => forall|j: int|
                    0 <= j < self.entries@.len() ==> self.entries@[j].0@ != key@,
            },
    {
        let n = self.entries.len();
        let mut i: usize = 0;
        while i < n
            invariant
                n == self.entries@.len(),
                0 <= i <= n,
                forall|j: int| 0 <= j < i ==> self.entries@[j].0@ != key@,
            decreases n - i,
        {
            if self.entries[i].0.key_eq(key) {
                return Some(i);
            }
            i = i + 1;
        }
        None
    }

    /// Looks a key up; returns a reference to its value when present.
    pub fn get(&self, key: &K) -> (r: Option<&V>)
        ensures
            match r {
                Some(v) => self@.contains_key(key@) && *v == self@[key@],
                None => !self@.contains_key(key@),
            },
    {
        proof {
            use_type_invariant(&*self);
        }
        match self.find_index(key) {
            Some(i) => {
                proof {
                    Self::lemma_index(self.entries@, i as int);
                }
                Some(&self.entries[i].1)
            },
            None => {
                proof {
                    Self::lemma_contains(self.entries@, key@);
                }
                None
            },
        }
    }

    /// Removes a key; returns its value when it was present.
    pub fn remove(&mut self, key: &K) -> (r: Option<V>)
        ensures
            final(self)@ == old(self)@.remove(key@),
            match r {
                Some(v) => old(self)@.contains_key(key@) && v == old(self)@[key@],
                None => !old(self)@.contains_key(key@) && final(self)@ == old(self)@,
            },
    {
        proof {
            use_type_invariant(&*self);
        }
        match self.find_index(key) {
            Some(i) => {
                proof {
                    Self::lemma_index(self.entries@, i as int);
                    Self::lemma_remove(self.entries@, i as int);
                }
                let mut tmp: Vec<(K, V)> = Vec::new();
                core::mem::swap(&mut tmp, &mut self.entries);
                let (_, v) = tmp.remove(i);
                core::mem::swap(&mut tmp, &mut self.entries);
                Some(v)
            },
            None => {
                proof {
                    Self::lemma_contains(self.entries@, key@);
                    assert(old(self)@.remove(key@) =~= old(self)@);
                }
                None
            },
        }
    }

    /// Binds a key to a value, replacing any previous binding.
    pub fn insert(&mut self, key: K, value: V)
        ensures
            final(self)@ == old(self)@.insert(key@, value),
    {
        let _ = self.remove(&key);
        let ghost prev = self.entries@;
        proof {
            use_type_invariant(&*self);
            Self::lemma_contains(prev, key@);
            assert(forall|j: int| 0 <= j < prev.len() ==> prev[j].0@ != key@);
        }
        let mut tmp: Vec<(K, V)> = Vec::new();
        core::mem::swap(&mut tmp, &mut self.entries);
        tmp.push((key, value));
        proof {
            assert(Self::distinct(tmp@)) by {
                assert(forall|x: int| 0 <= x < prev.len() ==> tmp@[x] == prev[x]);
            }
        }
        core::mem::swap(&mut tmp, &mut self.entries);
        proof {
            assert(self.entries@.drop_last() =~= prev);
            assert(self.entries@.last() == (key, value));
            assert(self@ == Self::seq_to_map(prev).insert(key@, value));
            assert(old(self)@.remove(key@).insert(key@, value) =~= old(self)@.insert(
                key@,
                value,
            ));
        }
    }
}

} // verus!
