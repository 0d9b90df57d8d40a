//! A small map from strings to values, kept in a vector.
//!
//! The gateway keeps one record per route or per client key. A lookup scans
//! the vector, which serves while the keys are few; what matters here is
//! that the table behaves exactly as the mathematical map that is its view.

use crate::text::{owned, str_eq};
use vstd::prelude::*;

verus! {

/// A finite map from strings to `V`.
#[derive(Debug)]
pub struct KeyedTable<V> {
    entries: Vec<(String, V)>,
}

impl<V> KeyedTable<V> {
    /// No two entries share a key.
    #[verifier::type_invariant]
    spec fn distinct_keys(&self) -> bool {
        forall|i: int, j: int|
            0 <= i < self.entries@.len() && 0 <= j < self.entries@.len() && i != j
                ==> self.entries@[i].0@ != self.entries@[j].0@
    }

    /// Whether some entry has the key `k`.
    spec fn has(&self, k: Seq<char>) -> bool {
        exists|i: int| 0 <= i < self.entries@.len() && #[trigger] self.entries@[i].0@ == k
    }

    /// The position of an entry with the key `k`.
    spec fn slot(&self, k: Seq<char>) -> int {
        choose|i: int| 0 <= i < self.entries@.len() && #[trigger] self.entries@[i].0@ == k
    }

    /// The map that the table stands for.
    pub closed spec fn view(&self) -> Map<Seq<char>, V> {
        Map::new(|k: Seq<char>| self.has(k), |k: Seq<char>| self.entries@[self.slot(k)].1)
    }

    /// An empty table.
    pub fn new() -> (r: KeyedTable<V>)
        ensures
            r@ == Map::<Seq<char>, V>::empty(),
    {
        let r = KeyedTable { entries: Vec::new() };
        assert(r@ =~= Map::<Seq<char>, V>::empty());
        r
    }

    /// The position of `key`, if the table holds it.
    fn position(&self, key: &str) -> (r: Option<usize>)
        ensures
            match r {
                Some(i) => i < self.entries@.len() && self.entries@[i as int].0@ == key@,
                None => !self.has(key@),
            },
    {
        let mut i: usize = 0;
        while i < self.entries.len()
            invariant
                0 <= i <= self.entries@.len(),
                forall|j: int| 0 <= j < i ==> self.entries@[j].0@ != key@,
            decreases self.entries@.len() - i,
        {
            if str_eq(self.entries[i].0.as_str(), key) {
                return Some(i);
            }
            i = i + 1;
        }
        None
    }

    /// The value stored under `key`.
    pub fn get(&self, key: &str) -> (r: Option<&V>)
        ensures
            match r {
                Some(v) => self@.contains_key(key@) && *v == self@[key@],
                None => !self@.contains_key(key@),
            },
    {
        proof {
            use_type_invariant(self);
        }
        match self.position(key) {
            Some(i) => {
                assert(self.has(key@));
                assert(self.slot(key@) == i);
                Some(&self.entries[i].1)
            },
            None => None,
        }
    }

    /// Stores `value` under `key`, replacing what was there.
    pub fn insert(&mut self, key: &str, value: V)
        ensures
            final(self)@ == old(self)@.insert(key@, value),
    {
        proof {
            use_type_invariant(&*self);
        }
        let ghost before = *self;
        let found = self.position(key);
        let mut entries: Vec<(String, V)> = Vec::new();
        core::mem::swap(&mut entries, &mut self.entries);
        match found {
            Some(i) => {
                entries.set(i, (owned(key), value));
            },
            None => {
                entries.push((owned(key), value));
            },
        }
        self.entries = entries;
        proof {
            let n = before.entries@.len() as int;
            let at = match found {
                Some(i) => i as int,
                None => n,
            };
            assert(self.entries@[at].0@ == key@);
            assert(self.entries@[at].1 == value);
            assert(forall|j: int|
                0 <= j < n && j != at ==> #[trigger] self.entries@[j] == before.entries@[j]);
            assert(forall|j: int|
                0 <= j < n ==> (#[trigger] self.entries@[j]).0@ == before.entries@[j].0@);
            assert(self.has(key@));
            assert forall|k: Seq<char>| before.has(k) implies self.has(k) by {
                let j = before.slot(k);
                assert(self.entries@[j].0@ == k);
            }
            assert forall|k: Seq<char>| self.has(k) implies (before.has(k) || k == key@) by {
                let j = self.slot(k);
                if j < n {
                    assert(before.entries@[j].0@ == k);
                }
            }
            assert forall|k: Seq<char>| self.has(k) implies #[trigger] self.entries@[self.slot(
                k,
            )].1 == before@.insert(key@, value)[k] by {
                let j = self.slot(k);
                if k == key@ {
                    assert(j == at);
                } else {
                    assert(before.entries@[j].0@ == k);
                    assert(before.slot(k) == j);
                }
            }
            assert(self@ =~= before@.insert(key@, value));
        }
    }
}

impl<V: Clone> Clone for KeyedTable<V> {
    /// A table with the same keys, each with a clone of its value.
    fn clone(&self) -> (r: KeyedTable<V>)
        ensures
            r@.dom() == self@.dom(),
    {
        proof {
            use_type_invariant(self);
        }
        let mut entries: Vec<(String, V)> = Vec::new();
        let mut i: usize = 0;
        while i < self.entries.len()
            invariant
                0 <= i <= self.entries@.len(),
                entries@.len() == i,
                forall|j: int| 0 <= j < i ==> (#[trigger] entries@[j]).0@ == self.entries@[j].0@,
            decreases self.entries@.len() - i,
        {
            entries.push((self.entries[i].0.clone(), self.entries[i].1.clone()));
            i = i + 1;
        }
        let r = KeyedTable { entries };
        proof {
            assert forall|k: Seq<char>| r.has(k) <==> self.has(k) by {
                if r.has(k) {
                    let j = r.slot(k);
                    assert(self.entries@[j].0@ == k);
                }
                if self.has(k) {
                    let j = self.slot(k);
                    assert(r.entries@[j].0@ == k);
                }
            }
            assert(r@.dom() =~= self@.dom());
        }
        r
    }
}

} // verus!
