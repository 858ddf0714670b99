//! A small string-keyed map that keeps its entries in insertion order.
//!
//! It stands where a `HashMap<String, V>` would: lookups, insertion with
//! replacement, and membership have their usual meaning, and the order of the
//! entries is the order in which their keys were first inserted.
use vstd::prelude::*;
use crate::text::str_eq;

verus! {

/// Index of the first entry at or after `i` whose key is `k`.
pub open spec fn key_index_from<V>(m: Seq<(Seq<char>, V)>, k: Seq<char>, i: nat) -> Option<nat>
    decreases m.len() - i,
{
    if i >= m.len() {
        None
    } else if m[i as int].0 == k {
        Some(i)
    } else {
        key_index_from(m, k, i + 1)
    }
}

/// Index of the entry whose key is `k`.
pub open spec fn key_index<V>(m: Seq<(Seq<char>, V)>, k: Seq<char>) -> Option<nat> {
    key_index_from(m, k, 0)
}

/// Value stored under `k`.
pub open spec fn lookup<V>(m: Seq<(Seq<char>, V)>, k: Seq<char>) -> Option<V> {
    match key_index(m, k) {
        Some(i) => Some(m[i as int].1),
        None => None,
    }
}

/// Whether some entry has key `k`.
pub open spec fn has_key<V>(m: Seq<(Seq<char>, V)>, k: Seq<char>) -> bool {
    key_index(m, k) is Some
}

/// No key occurs twice.
pub open spec fn distinct_keys<V>(m: Seq<(Seq<char>, V)>) -> bool {
    forall|i: int, j: int| 0 <= i < j < m.len() ==> m[i].0 != m[j].0
}

/// `key_index_from` finds the first matching key.
pub proof fn lemma_key_index_from<V>(m: Seq<(Seq<char>, V)>, k: Seq<char>, i: nat)
    ensures
        key_index_from(m, k, i) matches Some(j) ==> i <= j < m.len() && m[j as int].0 == k && (
        forall|l: int| i <= l < j ==> m[l].0 != k),
        key_index_from(m, k, i) is None ==> forall|l: int| i <= l < m.len() ==> m[l].0 != k,
    decreases m.len() - i,
{
    if i < m.len() && m[i as int].0 != k {
        lemma_key_index_from(m, k, i + 1);
    }
}

/// The entries after storing `v` under `key`: the entry with that key is
/// replaced, or a new one appended.
pub open spec fn stored<V>(m: Seq<(Seq<char>, V)>, key: Seq<char>, v: V) -> Seq<(Seq<char>, V)> {
    match key_index(m, key) {
        Some(i) => m.update(i as int, (key, v)),
        None => m.push((key, v)),
    }
}

/// A stored value is what a lookup of its key gives back, and the other keys
/// keep their values.
pub proof fn lemma_insert_lookup<V>(m: Seq<(Seq<char>, V)>, key: Seq<char>, v: V)
    ensures
        forall|k: Seq<char>|
            #[trigger] lookup(stored(m, key, v), k) == if k == key {
                Some(v)
            } else {
                lookup(m, k)
            },
{
    let n = stored(m, key, v);
    lemma_key_index_from(m, key, 0);
    assert forall|k: Seq<char>|
        #[trigger] lookup(n, k) == if k == key {
            Some(v)
        } else {
            lookup(m, k)
        } by {
        lemma_key_index_from(m, k, 0);
        lemma_key_index_from(n, k, 0);
        assert(forall|l: int| 0 <= l < m.len() ==> #[trigger] n[l].0 == m[l].0);
        if k == key {
            match key_index(m, key) {
                Some(x) => {
                    assert(n[x as int] == (key, v));
                },
                None => {
                    assert(n[m.len() as int] == (key, v));
                },
            }
        } else {
            match key_index(m, k) {
                Some(y) => {
                    assert(n[y as int].0 == k);
                    assert(n[y as int] == m[y as int]);
                },
                None => {
                    if key_index(n, k) is Some {
                        let y = key_index(n, k)->0 as int;
                        assert(y < m.len());
                    }
                },
            }
        }
    }
}

/// String-keyed map with entries in first-insertion order.
#[derive(Debug, Clone)]
pub struct StrMap<V> {
    entries: Vec<(String, V)>,
}

impl<V> View for StrMap<V> {
    type V = Seq<(Seq<char>, V)>;

    closed spec fn view(&self) -> Seq<(Seq<char>, V)> {
        self.entries@.map_values(|e: (String, V)| (e.0@, e.1))
    }
}

impl<V> StrMap<V> {
    /// An empty map.
    pub fn new() -> (m: Self)
        ensures
            m@ == Seq::<(Seq<char>, V)>::empty(),
    {
        let m = StrMap { entries: Vec::new() };
        assert(m@ =~= Seq::<(Seq<char>, V)>::empty());
        m
    }

    /// Number of entries.
    pub fn len(&self) -> (n: usize)
        ensures
            n == self@.len(),
    {
        self.entries.len()
    }

    /// Whether the map has no entry.
    pub fn is_empty(&self) -> (b: bool)
        ensures
            b == (self@.len() == 0),
    {
        self.entries.len() == 0
    }

    /// Position of `key`.
    pub fn index_of(&self, key: &str) -> (r: Option<usize>)
        ensures
            r matches Some(i) ==> key_index(self@, key@) == Some(i as nat),
            r is None ==> key_index(self@, key@) is None,
    {
        let mut i: usize = 0;
        while i < self.entries.len()
            invariant
                i <= self.entries@.len(),
                self@.len() == self.entries@.len(),
                forall|j: int| 0 <= j < self@.len() ==> #[trigger] self@[j] == (self.entries@[j].0@, self.entries@[j].1),
                key_index(self@, key@) == key_index_from(self@, key@, i as nat),
            decreases self.entries.len() - i,
        {
            if str_eq(self.entries[i].0.as_str(), key) {
                return Some(i);
            }
            i = i + 1;
        }
        None
    }

    /// The value stored under `key`.
    pub fn get(&self, key: &str) -> (r: Option<&V>)
        ensures
            r matches Some(v) ==> lookup(self@, key@) == Some(*v),
            r is None ==> lookup(self@, key@) is None,
    {
        proof {
            lemma_key_index_from(self@, key@, 0);
        }
        match self.index_of(key) {
            Some(i) => {
                assert(self@.len() == self.entries@.len());
                assert(self@[i as int].1 == self.entries@[i as int].1);
                Some(&self.entries[i].1)
            },
            None => None,
        }
    }

    /// Whether `key` has an entry.
    pub fn contains_key(&self, key: &str) -> (b: bool)
        ensures
            b == has_key(self@, key@),
    {
        self.index_of(key).is_some()
    }

    /// The key of entry `i`.
    pub fn key_at(&self, i: usize) -> (k: &String)
        requires
            i < self@.len(),
        ensures
            k@ == self@[i as int].0,
    {
        &self.entries[i].0
    }

    /// The value of entry `i`.
    pub fn value_at(&self, i: usize) -> (v: &V)
        requires
            i < self@.len(),
        ensures
            *v == self@[i as int].1,
    {
        &self.entries[i].1
    }

    /// Stores `value` under `key`, replacing and returning an earlier value.
    pub fn insert(&mut self, key: String, value: V) -> (r: Option<V>)
        ensures
            r == lookup(old(self)@, key@),
            final(self)@ == stored(old(self)@, key@, value),
            distinct_keys(old(self)@) ==> distinct_keys(final(self)@),
            forall|k: Seq<char>|
                #[trigger] lookup(final(self)@, k) == if k == key@ {
                    Some(value)
                } else {
                    lookup(old(self)@, k)
                },
    {
        proof {
            lemma_key_index_from(self@, key@, 0);
            lemma_insert_lookup(self@, key@, value);
        }
        match self.index_of(key.as_str()) {
            Some(i) => {
                let ghost ki = key@;
                let mut entry = (key, value);
                std::mem::swap(&mut entry, &mut self.entries[i]);
                assert(self@ =~= old(self)@.update(i as int, (ki, value)));
                Some(entry.1)
            },
            None => {
                self.entries.push((key, value));
                assert(self@ =~= old(self)@.push((key@, value)));
                None
            },
        }
    }

    /// Replaces the value of entry `i`, returning the value it had.
    pub fn replace_value_at(&mut self, i: usize, value: V) -> (r: V)
        requires
            i < old(self)@.len(),
        ensures
            r == old(self)@[i as int].1,
            final(self)@ == old(self)@.update(i as int, (old(self)@[i as int].0, value)),
    {
        let mut v = value;
        std::mem::swap(&mut v, &mut self.entries[i].1);
        assert(self@ =~= old(self)@.update(i as int, (old(self)@[i as int].0, value)));
        v
    }

    /// Removes entry `i` and returns its key and value.
    pub fn remove_at(&mut self, i: usize) -> (r: (String, V))
        requires
            i < old(self)@.len(),
        ensures
            final(self)@ == old(self)@.remove(i as int),
            (r.0@, r.1) == old(self)@[i as int],
            distinct_keys(old(self)@) ==> distinct_keys(final(self)@),
    {
        let r = self.entries.remove(i);
        assert(self@ =~= old(self)@.remove(i as int));
        r
    }

    /// Appends an entry without looking for an earlier one with the same key.
    pub fn push_unchecked(&mut self, key: String, value: V)
        ensures
            final(self)@ == old(self)@.push((key@, value)),
    {
        self.entries.push((key, value));
        assert(self@ =~= old(self)@.push((key@, value)));
    }

    /// A map holding the given entries, which have no key twice.
    pub fn from_distinct(entries: Vec<(String, V)>) -> (m: Self)
        requires
            distinct_keys(entries@.map_values(|e: (String, V)| (e.0@, e.1))),
        ensures
            m@ == entries@.map_values(|e: (String, V)| (e.0@, e.1)),
    {
        StrMap { entries }
    }
}

} // verus!
