//! A small map kept as a list of entries in the order in which the keys first
//! came in.

use vstd::prelude::*;
use crate::primitives::{Address, B256};

verus! {

/// A key of a [`KeyMap`]: a plain value with an equality test.
pub trait MapKey: Copy {
    /// True when the two keys are the same.
    fn same_key(&self, other: &Self) -> (r: bool)
        ensures
            r == (*self == *other),
    ;
}

impl MapKey for B256 {
    fn same_key(&self, other: &B256) -> (r: bool) {
        self.same(other)
    }
}

impl MapKey for Address {
    fn same_key(&self, other: &Address) -> (r: bool) {
        self.same(other)
    }
}

/// A map from keys to values. No key occurs twice in a valid map, and a key
/// keeps its place in the order until it is removed.
pub struct KeyMap<K, V> {
    entries: Vec<(K, V)>,
}

/// A map keyed by 32-byte identifiers.
pub type IdMap<V> = KeyMap<B256, V>;

/// The first index at which a list of entries holds a key.
pub open spec fn first_index<K, V>(entries: Seq<(K, V)>, key: K) -> Option<int>
    decreases entries.len(),
{
    if entries.len() == 0 {
        None
    } else {
        match first_index(entries.drop_last(), key) {
            Some(i) => Some(i),
            None => if entries.last().0 == key {
                Some(entries.len() - 1)
            } else {
                None
            },
        }
    }
}

/// What `first_index` finds is an index of the key, and it finds one
/// whenever there is one.
pub proof fn lemma_first_index<K, V>(entries: Seq<(K, V)>, key: K)
    ensures
        match first_index(entries, key) {
            Some(i) => 0 <= i < entries.len() && entries[i].0 == key && forall|j: int|
                0 <= j < i ==> entries[j].0 != key,
            None => forall|j: int| 0 <= j < entries.len() ==> entries[j].0 != key,
        },
    decreases entries.len(),
{
    if entries.len() > 0 {
        let front = entries.drop_last();
        lemma_first_index(front, key);
        match first_index(front, key) {
            Some(i) => {
                assert(front[i] == entries[i]);
                assert forall|j: int| 0 <= j < i implies entries[j].0 != key by {
                    assert(front[j] == entries[j]);
                }
            },
            None => {
                assert forall|j: int| 0 <= j < entries.len() - 1 implies entries[j].0 != key by {
                    assert(front[j] == entries[j]);
                }
            },
        }
    }
}

/// The value that a list of entries holds under a key.
pub open spec fn lookup<K, V>(entries: Seq<(K, V)>, key: K) -> Option<V> {
    match first_index(entries, key) {
        Some(i) => Some(entries[i].1),
        None => None,
    }
}

/// A list of entries with a value put under a key: in place of the value
/// that the key had, or at the end where the key is new.
pub open spec fn inserted<K, V>(entries: Seq<(K, V)>, key: K, value: V) -> Seq<(K, V)> {
    match first_index(entries, key) {
        Some(i) => entries.update(i, (key, value)),
        None => entries.push((key, value)),
    }
}

/// A list of entries without a key.
pub open spec fn removed<K, V>(entries: Seq<(K, V)>, key: K) -> Seq<(K, V)> {
    match first_index(entries, key) {
        Some(i) => entries.remove(i),
        None => entries,
    }
}

/// The values of a list of entries, in order.
pub open spec fn values_of<K, V>(entries: Seq<(K, V)>) -> Seq<V> {
    Seq::new(entries.len(), |i: int| entries[i].1)
}

/// The keys of a list of entries, in order.
pub open spec fn keys_of<K, V>(entries: Seq<(K, V)>) -> Seq<K> {
    Seq::new(entries.len(), |i: int| entries[i].0)
}

/// After an insertion the key holds the new value and every other key holds
/// what it held, and no key occurs twice if none did.
pub proof fn lemma_inserted<K, V>(entries: Seq<(K, V)>, key: K, value: V, other: K)
    requires
        distinct_keys(entries),
    ensures
        distinct_keys(inserted(entries, key, value)),
        lookup(inserted(entries, key, value), other) == (if other == key {
            Some(value)
        } else {
            lookup(entries, other)
        }),
{
    let after = inserted(entries, key, value);
    lemma_first_index(entries, key);
    lemma_first_index(entries, other);
    lemma_first_index(after, other);
    match first_index(after, other) {
        Some(i) => {
            if other != key {
                assert(entries[i].0 == other);
            }
        },
        None => {
            if other == key {
                match first_index(entries, key) {
                    Some(i) => {
                        assert(after[i].0 == key);
                    },
                    None => {
                        assert(after[entries.len() as int].0 == key);
                    },
                }
            } else {
                match first_index(entries, other) {
                    Some(j) => {
                        assert(after[j].0 == other);
                    },
                    None => {},
                }
            }
        },
    }
}

/// After a removal the key is gone and every other key holds what it held,
/// and no key occurs twice if none did.
pub proof fn lemma_removed<K, V>(entries: Seq<(K, V)>, key: K, other: K)
    requires
        distinct_keys(entries),
    ensures
        distinct_keys(removed(entries, key)),
        lookup(removed(entries, key), other) == (if other == key {
            None
        } else {
            lookup(entries, other)
        }),
{
    let after = removed(entries, key);
    lemma_first_index(entries, key);
    lemma_first_index(entries, other);
    lemma_first_index(after, other);
    match first_index(entries, key) {
        Some(i) => {
            assert forall|a: int| 0 <= a < after.len() implies after[a] == entries[if a < i {
                a
            } else {
                a + 1
            }] by {}
            match first_index(after, other) {
                Some(a) => {
                    let src = if a < i {
                        a
                    } else {
                        a + 1
                    };
                    assert(entries[src].0 == other);
                },
                None => {
                    if other != key {
                        match first_index(entries, other) {
                            Some(j) => {
                                let dst = if j < i {
                                    j
                                } else {
                                    j - 1
                                };
                                assert(after[dst].0 == other);
                            },
                            None => {},
                        }
                    }
                },
            }
        },
        None => {},
    }
}

/// True when no key occurs twice in a list of entries.
pub open spec fn distinct_keys<K, V>(entries: Seq<(K, V)>) -> bool {
    forall|i: int, j: int|
        0 <= i < entries.len() && 0 <= j < entries.len() && i != j ==> entries[i].0 != entries[j].0
}

impl<K: MapKey, V> KeyMap<K, V> {
    /// The entries in the order of their keys' arrival.
    pub closed spec fn entries(&self) -> Seq<(K, V)> {
        self.entries@
    }

    /// True for the values that a map can have: no key occurs twice.
    pub open spec fn valid(&self) -> bool {
        distinct_keys(self.entries())
    }

    /// True when the map holds the key.
    pub open spec fn has(&self, key: K) -> bool {
        first_index(self.entries(), key) is Some
    }

    /// The value under a key that the map holds.
    pub open spec fn value(&self, key: K) -> V {
        self.entries()[first_index(self.entries(), key)->Some_0].1
    }

    /// The value under a key, where the map holds the key.
    pub open spec fn spec_get(&self, key: K) -> Option<V> {
        lookup(self.entries(), key)
    }

    pub fn new() -> (r: KeyMap<K, V>)
        ensures
            r.entries() == Seq::<(K, V)>::empty(),
            r.valid(),
    {
        KeyMap { entries: Vec::new() }
    }

    /// The entries of a valid map hold no key twice.
    pub proof fn lemma_entries_valid(&self)
        ensures
            self.valid() ==> distinct_keys(self.entries()),
    {
    }

    pub fn len(&self) -> (r: usize)
        ensures
            r == self.entries().len(),
    {
        self.entries.len()
    }

    pub fn is_empty(&self) -> (r: bool)
        ensures
            r == (self.entries().len() == 0),
    {
        self.entries.len() == 0
    }

    /// The place of a key in the map.
    pub fn index_of(&self, key: &K) -> (r: Option<usize>)
        ensures
            match r {
                Some(i) => first_index(self.entries(), *key) == Some(i as int) && i
                    < self.entries().len() && self.entries()[i as int].0 == *key,
                None => first_index(self.entries(), *key) is None,
            },
    {
        let mut i: usize = 0;
        while i < self.entries.len()
            invariant
                i <= self.entries.len(),
                forall|j: int| 0 <= j < i ==> self.entries@[j].0 != *key,
            decreases self.entries.len() - i,
        {
            if self.entries[i].0.same_key(key) {
                proof {
                    lemma_first_index(self.entries@, *key);
                }
                return Some(i);
            }
            i = i + 1;
        }
        proof {
            lemma_first_index(self.entries@, *key);
        }
        None
    }

    pub fn contains_key(&self, key: &K) -> (r: bool)
        ensures
            r == self.has(*key),
    {
        self.index_of(key).is_some()
    }

    /// The value under a key.
    pub fn get(&self, key: &K) -> (r: Option<&V>)
        ensures
            match r {
                Some(v) => self.has(*key) && *v == self.value(*key),
                None => !self.has(*key),
            },
    {
        match self.index_of(key) {
            Some(i) => Some(&self.entries[i].1),
            None => None,
        }
    }

    /// The key at a place of the map.
    pub fn key_at(&self, i: usize) -> (r: K)
        requires
            i < self.entries().len(),
        ensures
            r == self.entries()[i as int].0,
    {
        self.entries[i].0
    }

    /// The value at a place of the map.
    pub fn value_at(&self, i: usize) -> (r: &V)
        requires
            i < self.entries().len(),
        ensures
            *r == self.entries()[i as int].1,
    {
        &self.entries[i].1
    }

    /// The value at a place of the map, to change it.
    pub fn value_at_mut(&mut self, i: usize) -> (r: &mut V)
        requires
            i < old(self).entries().len(),
        ensures
            *r == old(self).entries()[i as int].1,
            final(self).entries() == old(self).entries().update(
                i as int,
                (old(self).entries()[i as int].0, *final(r)),
            ),
            old(self).valid() ==> final(self).valid(),
    {
        &mut self.entries[i].1
    }

    /// Puts a value under a key: in place of the value that the key had, or
    /// at the end where the key is new.
    pub fn insert(&mut self, key: K, value: V)
        ensures
            final(self).entries() == inserted(old(self).entries(), key, value),
            old(self).valid() ==> final(self).valid(),
    {
        proof {
            lemma_first_index(self.entries@, key);
        }
        match self.index_of(&key) {
            Some(i) => {
                self.entries[i] = (key, value);
            },
            None => {
                self.entries.push((key, value));
            },
        }
    }

    /// Takes a key and its value out of the map.
    pub fn remove(&mut self, key: &K) -> (r: Option<V>)
        ensures
            r == old(self).spec_get(*key),
            final(self).entries() == removed(old(self).entries(), *key),
            old(self).valid() ==> final(self).valid(),
    {
        match self.index_of(key) {
            Some(i) => {
                let entry = self.entries.remove(i);
                Some(entry.1)
            },
            None => None,
        }
    }

    /// The keys of the map in order.
    pub fn keys(&self) -> (r: Vec<K>)
        ensures
            r@ == keys_of(self.entries()),
    {
        let mut out: Vec<K> = Vec::new();
        let mut i: usize = 0;
        while i < self.entries.len()
            invariant
                i <= self.entries.len(),
                out@.len() == i,
                forall|j: int| 0 <= j < i ==> out@[j] == self.entries@[j].0,
            decreases self.entries.len() - i,
        {
            out.push(self.entries[i].0);
            i = i + 1;
        }
        proof {
            assert(out@ =~= keys_of(self.entries@));
        }
        out
    }

    /// The values of the map in order.
    pub fn values(&self) -> (r: Vec<V>) where V: Copy
        ensures
            r@ == values_of(self.entries()),
    {
        let mut out: Vec<V> = Vec::new();
        let mut i: usize = 0;
        while i < self.entries.len()
            invariant
                i <= self.entries.len(),
                out@.len() == i,
                forall|j: int| 0 <= j < i ==> out@[j] == self.entries@[j].1,
            decreases self.entries.len() - i,
        {
            out.push(self.entries[i].1);
            i = i + 1;
        }
        proof {
            assert(out@ =~= values_of(self.entries@));
        }
        out
    }

    /// True when no key occurs twice in the map, as in every map that was
    /// made and changed by the functions of this type.
    pub fn check_valid(&self) -> (r: bool)
        ensures
            r == self.valid(),
    {
        let mut i: usize = 0;
        while i < self.entries.len()
            invariant
                i <= self.entries.len(),
                forall|a: int, b: int|
                    0 <= a < i && 0 <= b < self.entries@.len() && a != b ==> self.entries@[a].0
                        != self.entries@[b].0,
            decreases self.entries.len() - i,
        {
            let mut j: usize = 0;
            while j < self.entries.len()
                invariant
                    i < self.entries.len(),
                    j <= self.entries.len(),
                    forall|b: int| 0 <= b < j && b != i ==> self.entries@[i as int].0 != self.entries@[b].0,
                decreases self.entries.len() - j,
            {
                if j != i && self.entries[i].0.same_key(&self.entries[j].0) {
                    return false;
                }
                j = j + 1;
            }
            i = i + 1;
        }
        true
    }
}

} // verus!
