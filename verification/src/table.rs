//! A small table keyed by text, in which no key occurs twice.

use crate::text::same_text;
use vstd::prelude::*;

verus! {

/// A table from texts to values. The entries stand in the order in which
/// their keys were first inserted.
#[derive(Debug)]
pub struct Table<V> {
    keys: Vec<String>,
    values: Vec<V>,
}

/// The position of `key` among `keys`, if it is there.
pub open spec fn position_of(keys: Seq<Seq<char>>, key: Seq<char>) -> Option<int> {
    if exists|i: int| 0 <= i < keys.len() && keys[i] == key {
        Some(choose|i: int| 0 <= i < keys.len() && keys[i] == key)
    } else {
        None
    }
}

/// Whether no key occurs twice.
pub open spec fn distinct(keys: Seq<Seq<char>>) -> bool {
    forall|i: int, j: int| 0 <= i < j < keys.len() ==> keys[i] != keys[j]
}

/// The map that a table with these keys and values stands for.
pub open spec fn as_map<V>(keys: Seq<Seq<char>>, values: Seq<V>) -> Map<Seq<char>, V> {
    Map::new(
        |key: Seq<char>| position_of(keys, key) is Some,
        |key: Seq<char>| values[position_of(keys, key)->0],
    )
}

/// Among distinct keys, the position of a key is the one at which it
/// stands.
pub proof fn lemma_position(keys: Seq<Seq<char>>, i: int)
    requires
        distinct(keys),
        0 <= i < keys.len(),
    ensures
        position_of(keys, keys[i]) == Some(i),
{
    let j = choose|j: int| 0 <= j < keys.len() && keys[j] == keys[i];
    if j < i {
        assert(keys[j] != keys[i]);
    } else if i < j {
        assert(keys[i] != keys[j]);
    }
}

/// Taking out the entry at position `i` takes its key out of the map and
/// leaves the other keys distinct.
pub proof fn lemma_remove<V>(keys: Seq<Seq<char>>, values: Seq<V>, i: int)
    requires
        distinct(keys),
        keys.len() == values.len(),
        0 <= i < keys.len(),
    ensures
        distinct(keys.remove(i)),
        as_map(keys.remove(i), values.remove(i)) == as_map(keys, values).remove(keys[i]),
{
    let k2 = keys.remove(i);
    let v2 = values.remove(i);
    assert forall|a: int, b: int| 0 <= a < b < k2.len() implies k2[a] != k2[b] by {
        let a1 = if a < i { a } else { a + 1 };
        let b1 = if b < i { b } else { b + 1 };
        assert(k2[a] == keys[a1] && k2[b] == keys[b1]);
    }
    let m1 = as_map(keys, values).remove(keys[i]);
    let m2 = as_map(k2, v2);
    assert forall|key: Seq<char>| m1.dom().contains(key) <==> m2.dom().contains(key) by {
        if m1.dom().contains(key) {
            let p = position_of(keys, key)->0;
            lemma_position(keys, p);
            assert(p != i);
            let q = if p < i { p } else { p - 1 };
            assert(k2[q] == key);
        }
        if m2.dom().contains(key) {
            let q = position_of(k2, key)->0;
            let p = if q < i { q } else { q + 1 };
            assert(keys[p] == key);
            lemma_position(keys, p);
            lemma_position(keys, i);
        }
    }
    assert forall|key: Seq<char>| m1.dom().contains(key) implies m1[key] == m2[key] by {
        let p = position_of(keys, key)->0;
        lemma_position(keys, p);
        let q = if p < i { p } else { p - 1 };
        assert(k2[q] == key);
        lemma_position(k2, q);
        assert(v2[q] == values[p]);
    }
    assert(m1 =~= m2);
}

/// Adding an entry with a new key adds it to the map and leaves the keys
/// distinct.
pub proof fn lemma_push<V>(keys: Seq<Seq<char>>, values: Seq<V>, key: Seq<char>, value: V)
    requires
        distinct(keys),
        keys.len() == values.len(),
        position_of(keys, key) is None,
    ensures
        distinct(keys.push(key)),
        as_map(keys.push(key), values.push(value)) == as_map(keys, values).insert(key, value),
{
    let k2 = keys.push(key);
    let v2 = values.push(value);
    assert forall|a: int, b: int| 0 <= a < b < k2.len() implies k2[a] != k2[b] by {
        if b == keys.len() {
            assert(keys[a] != key);
        }
    }
    let m1 = as_map(keys, values).insert(key, value);
    let m2 = as_map(k2, v2);
    assert(k2[keys.len() as int] == key);
    lemma_position(k2, keys.len() as int);
    assert forall|other: Seq<char>| m1.dom().contains(other) <==> m2.dom().contains(other) by {
        if other != key && m1.dom().contains(other) {
            let p = position_of(keys, other)->0;
            assert(k2[p] == other);
        }
        if other != key && m2.dom().contains(other) {
            let q = position_of(k2, other)->0;
            assert(keys[q] == other);
        }
    }
    assert forall|other: Seq<char>| m1.dom().contains(other) implies m1[other] == m2[other] by {
        if other != key {
            let p = position_of(keys, other)->0;
            lemma_position(keys, p);
            assert(k2[p] == other);
            lemma_position(k2, p);
        }
    }
    assert(m1 =~= m2);
}

/// Putting another value at position `i` changes the map at that key
/// only.
pub proof fn lemma_update<V>(keys: Seq<Seq<char>>, values: Seq<V>, i: int, value: V)
    requires
        distinct(keys),
        keys.len() == values.len(),
        0 <= i < keys.len(),
    ensures
        as_map(keys, values.update(i, value)) == as_map(keys, values).insert(keys[i], value),
{
    let v2 = values.update(i, value);
    let m1 = as_map(keys, values).insert(keys[i], value);
    let m2 = as_map(keys, v2);
    lemma_position(keys, i);
    assert forall|other: Seq<char>| m1.dom().contains(other) implies m1[other] == m2[other] by {
        let p = position_of(keys, other)->0;
        lemma_position(keys, p);
    }
    assert(m1 =~= m2);
}

impl<V> Table<V> {
    /// The keys in their order.
    pub closed spec fn keys(&self) -> Seq<Seq<char>> {
        Seq::new(self.keys@.len(), |i: int| self.keys@[i]@)
    }

    /// The values in the order of their keys.
    pub closed spec fn values(&self) -> Seq<V> {
        self.values@
    }

    /// The invariant of the table: one value for each key, and no key
    /// twice.
    pub open spec fn wf(&self) -> bool {
        self.keys().len() == self.values().len() && distinct(self.keys())
    }

    /// The table as a map.
    pub open spec fn view(&self) -> Map<Seq<char>, V> {
        as_map(self.keys(), self.values())
    }

    /// A table without entries.
    pub fn new() -> (r: Self)
        ensures
            r.wf(),
            r.keys().len() == 0,
            r@ == Map::<Seq<char>, V>::empty(),
    {
        let r = Table { keys: Vec::new(), values: Vec::new() };
        proof {
            assert(r@ =~= Map::<Seq<char>, V>::empty());
        }
        r
    }

    /// The number of entries.
    pub fn len(&self) -> (n: usize)
        requires
            self.wf(),
        ensures
            n == self.keys().len(),
    {
        self.keys.len()
    }

    /// The key at position `i`.
    pub fn key_at(&self, i: usize) -> (key: &str)
        requires
            self.wf(),
            i < self.keys().len(),
        ensures
            key@ == self.keys()[i as int],
    {
        self.keys[i].as_str()
    }

    /// The value at position `i`.
    pub fn value_at(&self, i: usize) -> (value: &V)
        requires
            self.wf(),
            i < self.keys().len(),
        ensures
            *value == self.values()[i as int],
    {
        &self.values[i]
    }

    /// The value at position `i`, to be changed in place.
    pub fn value_at_mut(&mut self, i: usize) -> (value: &mut V)
        requires
            old(self).wf(),
            i < old(self).keys().len(),
        ensures
            *value == old(self).values()[i as int],
            final(self).wf(),
            final(self).keys() == old(self).keys(),
            final(self).values() == old(self).values().update(i as int, *final(value)),
            final(self)@ == old(self)@.insert(old(self).keys()[i as int], *final(value)),
    {
        proof {
            let keys = self.keys();
            let values = self.values();
            assert forall|v: V| #[trigger]
                as_map(keys, values.update(i as int, v)) == as_map(keys, values).insert(
                    keys[i as int],
                    v,
                ) by {
                lemma_update(keys, values, i as int, v);
            }
        }
        &mut self.values[i]
    }

    /// The position of `key`.
    pub fn position(&self, key: &str) -> (r: Option<usize>)
        requires
            self.wf(),
        ensures
            match r {
                Some(i) => position_of(self.keys(), key@) == Some(i as int) && i
                    < self.keys().len() && self.keys()[i as int] == key@,
                None => position_of(self.keys(), key@) is None,
            },
    {
        let mut i: usize = 0;
        while i < self.keys.len()
            invariant
                self.wf(),
                i <= self.keys().len(),
                forall|j: int| 0 <= j < i ==> self.keys()[j] != key@,
            decreases self.keys().len() - i,
        {
            if same_text(self.keys[i].as_str(), key) {
                proof {
                    lemma_position(self.keys(), i as int);
                }
                return Some(i);
            }
            i += 1;
        }
        None
    }

    pub fn contains_key(&self, key: &str) -> (r: bool)
        requires
            self.wf(),
        ensures
            r == self@.dom().contains(key@),
    {
        self.position(key).is_some()
    }

    /// The value of `key`.
    pub fn get(&self, key: &str) -> (r: Option<&V>)
        requires
            self.wf(),
        ensures
            match r {
                Some(value) => self@.dom().contains(key@) && self@[key@] == *value,
                None => !self@.dom().contains(key@),
            },
    {
        match self.position(key) {
            Some(i) => Some(&self.values[i]),
            None => None,
        }
    }

    /// Sets the value of `key` and hands back the value that it had.
    pub fn insert(&mut self, key: String, value: V) -> (r: Option<V>)
        requires
            old(self).wf(),
        ensures
            final(self).wf(),
            final(self)@ == old(self)@.insert(key@, value),
            match r {
                Some(before) => old(self)@.dom().contains(key@) && old(self)@[key@] == before
                    && final(self).keys() == old(self).keys(),
                None => !old(self)@.dom().contains(key@) && final(self).keys() == old(
                    self,
                ).keys().push(key@) && final(self).values() == old(self).values().push(value),
            },
    {
        match self.position(key.as_str()) {
            Some(i) => {
                proof {
                    lemma_update(self.keys(), self.values(), i as int, value);
                }
                let ghost keys_before = self.keys();
                let mut slot = value;
                std::mem::swap(&mut self.values[i], &mut slot);
                proof {
                    assert(self.keys() == keys_before);
                }
                Some(slot)
            },
            None => {
                proof {
                    lemma_push(self.keys(), self.values(), key@, value);
                }
                let ghost keys_before = self.keys();
                self.keys.push(key);
                self.values.push(value);
                proof {
                    assert(self.keys() =~= keys_before.push(key@));
                }
                None
            },
        }
    }

    /// Takes out the entry at position `i`, and hands back its key and
    /// its value.
    pub fn remove_at(&mut self, i: usize) -> (r: (String, V))
        requires
            old(self).wf(),
            i < old(self).keys().len(),
        ensures
            final(self).wf(),
            final(self).keys() == old(self).keys().remove(i as int),
            final(self).values() == old(self).values().remove(i as int),
            final(self)@ == old(self)@.remove(old(self).keys()[i as int]),
            r.0@ == old(self).keys()[i as int],
            r.1 == old(self).values()[i as int],
    {
        proof {
            lemma_remove(self.keys(), self.values(), i as int);
        }
        let ghost keys_before = self.keys();
        let key = self.keys.remove(i);
        let value = self.values.remove(i);
        proof {
            assert(self.keys() =~= keys_before.remove(i as int));
        }
        (key, value)
    }

    /// Takes out the entry of `key`, and hands back its value.
    pub fn remove(&mut self, key: &str) -> (r: Option<V>)
        requires
            old(self).wf(),
        ensures
            final(self).wf(),
            final(self)@ == old(self)@.remove(key@),
            match r {
                Some(value) => old(self)@.dom().contains(key@) && old(self)@[key@] == value,
                None => !old(self)@.dom().contains(key@) && final(self).keys() == old(self).keys(),
            },
    {
        match self.position(key) {
            Some(i) => {
                proof {
                    lemma_position(self.keys(), i as int);
                }
                let (_, value) = self.remove_at(i);
                Some(value)
            },
            None => {
                proof {
                    assert(self@.remove(key@) =~= self@);
                }
                None
            },
        }
    }
}

} // verus!
