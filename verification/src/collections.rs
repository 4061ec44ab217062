//! An insertion-ordered map keyed by strings.

use vstd::prelude::*;
use crate::text::str_eq;

verus! {

/// A map from strings to `V` that remembers the order in which keys were
/// first inserted. No key occurs twice.
///
/// Its view is the mathematical map from keys (as character sequences) to
/// values; `keys()` and `values()` give the entries in order.
#[derive(Debug)]
pub struct StringMap<V> {
    entries: Vec<(String, V)>,
}

impl<V> View for StringMap<V> {
    type V = Map<Seq<char>, V>;

    closed spec fn view(&self) -> Map<Seq<char>, V> {
        Map::new(
            |k: Seq<char>| self.keys().contains(k),
            |k: Seq<char>| self.values()[self.keys().index_of(k)],
        )
    }
}

impl<V> StringMap<V> {
    /// The keys, in insertion order.
    pub closed spec fn keys(&self) -> Seq<Seq<char>> {
        Seq::new(self.entries@.len(), |i: int| self.entries@[i].0@)
    }

    /// The values, in the order of their keys.
    pub closed spec fn values(&self) -> Seq<V> {
        Seq::new(self.entries@.len(), |i: int| self.entries@[i].1)
    }

    #[verifier::type_invariant]
    spec fn distinct_keys(&self) -> bool {
        self.keys().no_duplicates()
    }

    /// How keys, values and the view relate.
    pub open spec fn consistent(&self) -> bool {
        &&& self.keys().len() == self.values().len()
        &&& self.keys().no_duplicates()
        &&& forall|k: Seq<char>| self@.contains_key(k) <==> self.keys().contains(k)
        &&& forall|i: int|
            0 <= i < self.keys().len() ==> self@.contains_key(#[trigger] self.keys()[i])
                && self@[self.keys()[i]] == self.values()[i]
    }

    proof fn lemma_consistent(&self)
        requires
            self.keys().no_duplicates(),
        ensures
            self.consistent(),
    {
        assert forall|i: int| 0 <= i < self.keys().len() implies self@.contains_key(
            #[trigger] self.keys()[i],
        ) && self@[self.keys()[i]] == self.values()[i] by {
            let k = self.keys()[i];
            assert(self.keys().contains(k));
            let j = self.keys().index_of(k);
            assert(self.keys()[j] == k);
        }
    }

    /// Moves the entries out, leaving the map empty.
    fn take_entries(&mut self) -> (entries: Vec<(String, V)>)
        ensures
            entries == old(self).entries,
    {
        let mut taken = StringMap { entries: Vec::new() };
        core::mem::swap(self, &mut taken);
        taken.entries
    }

    /// The entries in insertion order, moved out of the map.
    pub fn into_entries(self) -> (entries: Vec<(String, V)>)
        ensures
            self.consistent(),
            entries@.len() == self.keys().len(),
            forall|i: int|
                0 <= i < entries@.len() ==> (#[trigger] entries@[i]).0@ == self.keys()[i]
                    && entries@[i].1 == self.values()[i],
    {
        proof {
            use_type_invariant(&self);
            self.lemma_consistent();
        }
        self.entries
    }

    /// An empty map.
    pub fn new() -> (m: Self)
        ensures
            m@ == Map::<Seq<char>, V>::empty(),
            m.keys() == Seq::<Seq<char>>::empty(),
            m.values() == Seq::<V>::empty(),
            m.consistent(),
    {
        let m = StringMap { entries: Vec::new() };
        proof {
            m.lemma_consistent();
        }
        assert(m@ =~= Map::<Seq<char>, V>::empty());
        assert(m.keys() =~= Seq::<Seq<char>>::empty());
        assert(m.values() =~= Seq::<V>::empty());
        m
    }

    /// The number of entries.
    pub fn len(&self) -> (n: usize)
        ensures
            n == self.keys().len(),
            self.consistent(),
    {
        proof {
            use_type_invariant(self);
            self.lemma_consistent();
        }
        self.entries.len()
    }

    /// Whether the map has no entry.
    pub fn is_empty(&self) -> (b: bool)
        ensures
            b == (self.keys().len() == 0),
            b == (self@ == Map::<Seq<char>, V>::empty()),
    {
        proof {
            use_type_invariant(self);
            self.lemma_consistent();
            if self.keys().len() == 0 {
                assert(self@ =~= Map::<Seq<char>, V>::empty());
            } else {
                assert(self@.contains_key(self.keys()[0]));
            }
        }
        self.entries.len() == 0
    }

    /// The key at position `i` of the insertion order.
    pub fn key_at(&self, i: usize) -> (k: &String)
        requires
            i < self.keys().len(),
        ensures
            k@ == self.keys()[i as int],
            self.consistent(),
    {
        proof {
            use_type_invariant(self);
            self.lemma_consistent();
        }
        &self.entries[i].0
    }

    /// The value at position `i` of the insertion order.
    pub fn value_at(&self, i: usize) -> (v: &V)
        requires
            i < self.keys().len(),
        ensures
            *v == self.values()[i as int],
            self.consistent(),
    {
        proof {
            use_type_invariant(self);
            self.lemma_consistent();
        }
        &self.entries[i].1
    }

    /// The position of `key` in the insertion order, if it is present.
    pub fn position(&self, key: &str) -> (r: Option<usize>)
        ensures
            self.consistent(),
            match r {
                Some(i) => i < self.keys().len() && self.keys()[i as int] == key@,
                None => !self@.contains_key(key@),
            },
    {
        proof {
            use_type_invariant(self);
            self.lemma_consistent();
        }
        let mut i: usize = 0;
        while i < self.entries.len()
            invariant
                i <= self.entries.len(),
                self.consistent(),
                forall|j: int| 0 <= j < i ==> self.keys()[j] != key@,
            decreases self.entries.len() - i,
        {
            if str_eq(self.entries[i].0.as_str(), key) {
                return Some(i);
            }
            i += 1;
        }
        None
    }

    /// Whether `key` is present.
    pub fn contains_key(&self, key: &str) -> (b: bool)
        ensures
            b == self@.contains_key(key@),
    {
        let r = self.position(key);
        r.is_some()
    }

    /// The value stored under `key`, if any.
    pub fn get(&self, key: &str) -> (r: Option<&V>)
        ensures
            match r {
                Some(v) => self@.contains_key(key@) && *v == self@[key@],
                None => !self@.contains_key(key@),
            },
    {
        match self.position(key) {
            Some(i) => Some(&self.entries[i].1),
            None => None,
        }
    }

    /// Stores `value` under `key`. A key that is already present keeps its
    /// position and gets the new value; a new key goes to the end.
    pub fn insert(&mut self, key: String, value: V)
        ensures
            final(self).consistent(),
            final(self)@ == old(self)@.insert(key@, value),
            old(self)@.contains_key(key@) ==> final(self).keys() == old(self).keys()
                && final(self).values() == old(self).values().update(
                old(self).keys().index_of(key@),
                value,
            ),
            !old(self)@.contains_key(key@) ==> final(self).keys() == old(self).keys().push(key@)
                && final(self).values() == old(self).values().push(value),
    {
        let ghost before = *self;
        let found = self.position(key.as_str());
        let mut entries = self.take_entries();
        let ghost k = key@;
        match found {
            Some(i) => {
                entries.set(i, (key, value));
                proof {
                    let keys = Seq::new(entries@.len(), |j: int| entries@[j].0@);
                    assert(keys =~= before.keys());
                    assert(before.keys().index_of(k) == i);
                    let values = Seq::new(entries@.len(), |j: int| entries@[j].1);
                    assert(values =~= before.values().update(i as int, value));
                }
            },
            None => {
                entries.push((key, value));
                proof {
                    let keys = Seq::new(entries@.len(), |j: int| entries@[j].0@);
                    assert(keys =~= before.keys().push(k));
                    assert(!before.keys().contains(k));
                    let values = Seq::new(entries@.len(), |j: int| entries@[j].1);
                    assert(values =~= before.values().push(value));
                }
            },
        }
        *self = StringMap { entries };
        proof {
            self.lemma_consistent();
            assert forall|x: Seq<char>| #[trigger] self@.contains_key(x) implies self@[x]
                == before@.insert(k, value)[x] by {
                let j = self.keys().index_of(x);
                assert(self.keys()[j] == x);
                assert(self@[self.keys()[j]] == self.values()[j]);
                if x != k {
                    assert(before.keys()[j] == x);
                    assert(before@[before.keys()[j]] == before.values()[j]);
                }
            }
            assert forall|x: Seq<char>| self@.contains_key(x) <==> before@.insert(
                k,
                value,
            ).contains_key(x) by {
                if before.keys().contains(x) {
                    let j = before.keys().index_of(x);
                    assert(self.keys()[j] == x);
                }
                if x == k {
                    if found is Some {
                        assert(self.keys()[found->0 as int] == k);
                    } else {
                        assert(self.keys()[self.keys().len() - 1] == k);
                    }
                }
            }
            assert(self@ =~= before@.insert(k, value));
        }
    }

    /// Removes `key` and returns what was stored under it. The other keys
    /// keep their order.
    pub fn remove(&mut self, key: &str) -> (r: Option<V>)
        ensures
            final(self).consistent(),
            final(self)@ == old(self)@.remove(key@),
            match r {
                Some(v) => old(self)@.contains_key(key@) && v == old(self)@[key@],
                None => !old(self)@.contains_key(key@),
            },
            old(self)@.contains_key(key@) ==> final(self).keys() == old(self).keys().remove(
                old(self).keys().index_of(key@),
            ),
            !old(self)@.contains_key(key@) ==> final(self).keys() == old(self).keys(),
    {
        let ghost before = *self;
        match self.position(key) {
            Some(i) => {
                let mut entries = self.take_entries();
                let entry = entries.remove(i);
                proof {
                    let keys = Seq::new(entries@.len(), |j: int| entries@[j].0@);
                    assert(keys =~= before.keys().remove(i as int));
                    assert(before.keys().remove(i as int).no_duplicates());
                }
                *self = StringMap { entries };
                proof {
                    self.lemma_consistent();
                    assert(before.keys().index_of(key@) == i);
                    assert(self.values() =~= before.values().remove(i as int));
                    assert forall|x: Seq<char>| #[trigger] self@.contains_key(x) implies x != key@
                        && before@.contains_key(x) && self@[x] == before@[x] by {
                        let j = self.keys().index_of(x);
                        assert(self.keys()[j] == x);
                        assert(self@[self.keys()[j]] == self.values()[j]);
                        let j0 = if j < i { j } else { j + 1 };
                        assert(before.keys()[j0] == x);
                        assert(before@[before.keys()[j0]] == before.values()[j0]);
                    }
                    assert forall|x: Seq<char>| x != key@ && before@.contains_key(x) implies
                        #[trigger] self@.contains_key(x) by {
                        let j0 = before.keys().index_of(x);
                        assert(before.keys()[j0] == x);
                        let j = if j0 < i { j0 } else { j0 - 1 };
                        assert(self.keys()[j] == x);
                    }
                    assert(self@ =~= before@.remove(key@));
                }
                Some(entry.1)
            },
            None => {
                proof {
                    assert(self@ =~= self@.remove(key@));
                }
                None
            },
        }
    }
}

impl<V: Clone> Clone for StringMap<V> {
    /// A map with the same keys in the same order, each value cloned.
    fn clone(&self) -> (r: Self)
        ensures
            r.keys() == self.keys(),
            r.values().len() == self.values().len(),
            forall|i: int|
                0 <= i < self.values().len() ==> cloned::<V>(
                    #[trigger] self.values()[i],
                    r.values()[i],
                ),
            r.values() == self.values() ==> r@ == self@,
    {
        proof {
            use_type_invariant(self);
        }
        let mut entries: Vec<(String, V)> = Vec::new();
        let mut i: usize = 0;
        while i < self.entries.len()
            invariant
                i <= self.entries.len(),
                entries.len() == i,
                forall|j: int| 0 <= j < i ==> entries@[j].0@ == self.entries@[j].0@,
                forall|j: int| 0 <= j < i ==> cloned::<V>(self.entries@[j].1, entries@[j].1),
            decreases self.entries.len() - i,
        {
            entries.push((self.entries[i].0.clone(), self.entries[i].1.clone()));
            i += 1;
        }
        proof {
            let keys = Seq::new(entries@.len(), |j: int| entries@[j].0@);
            assert(keys =~= self.keys());
        }
        let r = StringMap { entries };
        proof {
            assert(r.keys() =~= self.keys());
        }
        r
    }
}

} // verus!
