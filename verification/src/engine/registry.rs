//! A small map from names to values that keeps its entries in the order in
//! which their names were first put.

use crate::text::str_eq;
use vstd::prelude::*;

verus! {

/// The first position from `from` on at which an entry with the key `key`
/// stands, or the number of entries where none does.
pub open spec fn position_from<T>(entries: Seq<(Seq<char>, T)>, key: Seq<char>, from: int) -> int
    decreases entries.len() - from,
{
    if from < 0 || from >= entries.len() {
        entries.len() as int
    } else if entries[from].0 == key {
        from
    } else {
        position_from(entries, key, from + 1)
    }
}

/// The position of the entry with the key `key`, or the number of entries
/// where there is none.
pub open spec fn position_of<T>(entries: Seq<(Seq<char>, T)>, key: Seq<char>) -> int {
    position_from(entries, key, 0)
}

/// Whether an entry with the key `key` is there.
pub open spec fn has_key<T>(entries: Seq<(Seq<char>, T)>, key: Seq<char>) -> bool {
    position_of(entries, key) < entries.len()
}

/// The value under the key `key`, where there is one.
pub open spec fn value_of<T>(entries: Seq<(Seq<char>, T)>, key: Seq<char>) -> T {
    entries[position_of(entries, key)].1
}

/// Whether no two entries have one key.
pub open spec fn unique_keys<T>(entries: Seq<(Seq<char>, T)>) -> bool {
    forall|i: int, j: int| 0 <= i < j < entries.len() ==> (#[trigger] entries[i]).0 != (#[trigger] entries[j]).0
}

/// The entries with `value` under `key`: in the place of the entry of that
/// key, or at the end where there was none.
pub open spec fn put<T>(entries: Seq<(Seq<char>, T)>, key: Seq<char>, value: T) -> Seq<(Seq<char>, T)> {
    if has_key(entries, key) {
        entries.update(position_of(entries, key), (key, value))
    } else {
        entries.push((key, value))
    }
}

/// The entries without the entry of the key `key`.
pub open spec fn taken<T>(entries: Seq<(Seq<char>, T)>, key: Seq<char>) -> Seq<(Seq<char>, T)> {
    if has_key(entries, key) {
        entries.remove(position_of(entries, key))
    } else {
        entries
    }
}

/// Where `position_from` finds a key, an entry of that key stands there, and
/// none between `from` and there.
pub proof fn lemma_position_from<T>(entries: Seq<(Seq<char>, T)>, key: Seq<char>, from: int)
    requires
        0 <= from <= entries.len(),
    ensures
        from <= position_from(entries, key, from) <= entries.len(),
        position_from(entries, key, from) < entries.len() ==> entries[position_from(entries, key, from)].0
            == key,
        forall|j: int| from <= j < position_from(entries, key, from) ==> (#[trigger] entries[j]).0 != key,
    decreases entries.len() - from,
{
    if from < entries.len() && entries[from].0 != key {
        lemma_position_from(entries, key, from + 1);
    }
}

/// Putting a value under a key keeps the keys unique, makes the value the
/// one under that key, and leaves every other key as it was.
pub proof fn lemma_put<T>(entries: Seq<(Seq<char>, T)>, key: Seq<char>, value: T)
    requires
        unique_keys(entries),
    ensures
        unique_keys(put(entries, key, value)),
        has_key(put(entries, key, value), key),
        value_of(put(entries, key, value), key) == value,
        forall|other: Seq<char>|
            other != key ==> #[trigger] has_key(put(entries, key, value), other) == has_key(entries, other),
        forall|other: Seq<char>|
            other != key && has_key(entries, other) ==> #[trigger] value_of(
                put(entries, key, value),
                other,
            ) == value_of(entries, other),
{
    let after = put(entries, key, value);
    lemma_position_from(entries, key, 0);
    let slot = position_of(entries, key);
    assert forall|i: int, j: int| 0 <= i < j < after.len() implies (#[trigger] after[i]).0 != (
    #[trigger] after[j]).0 by {
        if slot < entries.len() {
            if i == slot {
                assert(entries[j].0 != entries[slot].0);
            } else if j == slot {
                assert(entries[i].0 != entries[slot].0);
            } else {
                assert(entries[i].0 != entries[j].0);
            }
        } else {
            if j == entries.len() {
                assert(entries[i].0 != key);
            } else {
                assert(entries[i].0 != entries[j].0);
            }
        }
    }
    lemma_position_from(after, key, 0);
    let at = if slot < entries.len() { slot } else { entries.len() as int };
    assert(after[at].0 == key);
    let found = position_of(after, key);
    assert(found <= at);
    if found < at {
        assert(after[found].0 != after[at].0);
    }
    assert forall|other: Seq<char>| other != key implies {
        &&& has_key(after, other) == has_key(entries, other)
        &&& has_key(entries, other) ==> value_of(after, other) == value_of(entries, other)
    } by {
        lemma_position_from(entries, other, 0);
        lemma_position_from(after, other, 0);
        let a = position_of(entries, other);
        let b = position_of(after, other);
        if a < entries.len() {
            assert(after[a].0 == other);
            assert(b <= a);
            if b < a {
                assert(entries[b].0 == after[b].0);
            }
            assert(after[a].1 == entries[a].1);
        } else {
            if b < after.len() {
                if b < entries.len() {
                    assert(entries[b].0 == other);
                }
            }
        }
    }
}

/// Taking a key away keeps the keys unique, removes that key, and leaves
/// every other key as it was.
pub proof fn lemma_taken<T>(entries: Seq<(Seq<char>, T)>, key: Seq<char>)
    requires
        unique_keys(entries),
    ensures
        unique_keys(taken(entries, key)),
        !has_key(taken(entries, key), key),
        forall|other: Seq<char>|
            other != key ==> #[trigger] has_key(taken(entries, key), other) == has_key(entries, other),
        forall|other: Seq<char>|
            other != key && has_key(entries, other) ==> #[trigger] value_of(taken(entries, key), other)
                == value_of(entries, other),
{
    let after = taken(entries, key);
    lemma_position_from(entries, key, 0);
    let slot = position_of(entries, key);
    if slot < entries.len() {
        assert forall|i: int, j: int| 0 <= i < j < after.len() implies (#[trigger] after[i]).0 != (
        #[trigger] after[j]).0 by {
            let a = if i < slot { i } else { i + 1 };
            let b = if j < slot { j } else { j + 1 };
            assert(after[i] == entries[a]);
            assert(after[j] == entries[b]);
            assert(entries[a].0 != entries[b].0);
        }
        lemma_position_from(after, key, 0);
        let found = position_of(after, key);
        if found < after.len() {
            let b = if found < slot { found } else { found + 1 };
            assert(after[found] == entries[b]);
            if b > slot {
                assert(entries[slot].0 != entries[b].0);
            }
        }
        assert forall|other: Seq<char>| other != key implies {
            &&& has_key(after, other) == has_key(entries, other)
            &&& has_key(entries, other) ==> value_of(after, other) == value_of(entries, other)
        } by {
            lemma_position_from(entries, other, 0);
            lemma_position_from(after, other, 0);
            let a = position_of(entries, other);
            let b = position_of(after, other);
            if a < entries.len() {
                let a_after = if a < slot { a } else { a - 1 };
                assert(after[a_after] == entries[a]);
                assert(b <= a_after);
                if b < a_after {
                    let b_before = if b < slot { b } else { b + 1 };
                    assert(after[b] == entries[b_before]);
                }
            } else {
                if b < after.len() {
                    let b_before = if b < slot { b } else { b + 1 };
                    assert(after[b] == entries[b_before]);
                }
            }
        }
    }
}

/// A map from names to values, in the order in which the names were first
/// put.
pub struct Registry<T> {
    keys: Vec<String>,
    values: Vec<T>,
}

impl<T> View for Registry<T> {
    type V = Seq<(Seq<char>, T)>;

    /// The entries, each a key with its value, in order.
    closed spec fn view(&self) -> Seq<(Seq<char>, T)> {
        Seq::new(self.keys@.len(), |i: int| (self.keys@[i]@, self.values@[i]))
    }
}

impl<T> Registry<T> {
    /// The invariant of the map: no key stands twice.
    pub closed spec fn wf(self) -> bool {
        &&& self.keys@.len() == self.values@.len()
        &&& unique_keys(self@)
    }

    /// In a well-formed map no key stands twice.
    pub proof fn lemma_unique(self)
        requires
            self.wf(),
        ensures
            unique_keys(self@),
    {
    }

    /// An empty map.
    pub fn new() -> (registry: Self)
        ensures
            registry.wf(),
            registry@ == Seq::<(Seq<char>, T)>::empty(),
    {
        let registry = Registry { keys: Vec::new(), values: Vec::new() };
        assert(registry@ =~= Seq::<(Seq<char>, T)>::empty());
        registry
    }

    /// The number of entries.
    pub fn len(&self) -> (n: usize)
        requires
            self.wf(),
        ensures
            n == self@.len(),
    {
        self.keys.len()
    }

    /// Finds the position of the entry of `key`.
    pub fn find(&self, key: &str) -> (found: Option<usize>)
        requires
            self.wf(),
        ensures
            match found {
                Some(i) => i < self@.len() && i == position_of(self@, key@) && self@[i as int].0 == key@,
                None => position_of(self@, key@) == self@.len(),
            },
            found is Some <==> has_key(self@, key@),
    {
        proof {
            lemma_position_from(self@, key@, 0);
        }
        let mut i: usize = 0;
        while i < self.keys.len()
            invariant
                i <= self.keys@.len(),
                self.keys@.len() == self@.len(),
                position_from(self@, key@, i as int) == position_of(self@, key@),
            decreases self.keys@.len() - i,
        {
            assert(self@[i as int].0 == self.keys@[i as int]@);
            if str_eq(self.keys[i].as_str(), key) {
                return Some(i);
            }
            i = i + 1;
        }
        None
    }

    /// Whether the map has an entry of `key`.
    pub fn contains_key(&self, key: &str) -> (r: bool)
        requires
            self.wf(),
        ensures
            r == has_key(self@, key@),
    {
        self.find(key).is_some()
    }

    /// The value under `key`.
    pub fn get(&self, key: &str) -> (found: Option<&T>)
        requires
            self.wf(),
        ensures
            match found {
                Some(value) => has_key(self@, key@) && *value == value_of(self@, key@),
                None => !has_key(self@, key@),
            },
    {
        match self.find(key) {
            Some(i) => Some(&self.values[i]),
            None => None,
        }
    }

    /// The key at position `i`.
    pub fn key_at(&self, i: usize) -> (key: &String)
        requires
            self.wf(),
            i < self@.len(),
        ensures
            key@ == self@[i as int].0,
    {
        &self.keys[i]
    }

    /// The value at position `i`.
    pub fn value_at(&self, i: usize) -> (value: &T)
        requires
            self.wf(),
            i < self@.len(),
        ensures
            *value == self@[i as int].1,
    {
        &self.values[i]
    }

    /// Puts `value` under `key`: in the place of the value that was there,
    /// which is returned, or at the end.
    pub fn insert(&mut self, key: String, value: T) -> (displaced: Option<T>)
        requires
            old(self).wf(),
        ensures
            final(self).wf(),
            final(self)@ == put(old(self)@, key@, value),
            match displaced {
                Some(previous) => has_key(old(self)@, key@) && previous == value_of(old(self)@, key@),
                None => !has_key(old(self)@, key@),
            },
    {
        proof {
            lemma_put(self@, key@, value);
        }
        match self.find(key.as_str()) {
            Some(i) => {
                let mut held = value;
                std::mem::swap(&mut self.values[i], &mut held);
                assert(self@ =~= put(old(self)@, key@, value));
                Some(held)
            },
            None => {
                self.keys.push(key);
                self.values.push(value);
                assert(self@ =~= put(old(self)@, key@, value));
                None
            },
        }
    }

    /// Takes the entry of `key` away and returns its value.
    pub fn remove(&mut self, key: &str) -> (removed: Option<T>)
        requires
            old(self).wf(),
        ensures
            final(self).wf(),
            final(self)@ == taken(old(self)@, key@),
            match removed {
                Some(value) => has_key(old(self)@, key@) && value == value_of(old(self)@, key@),
                None => !has_key(old(self)@, key@),
            },
    {
        proof {
            lemma_taken(self@, key@);
        }
        match self.find(key) {
            Some(i) => {
                let _ = self.keys.remove(i);
                let value = self.values.remove(i);
                assert(self@ =~= taken(old(self)@, key@));
                Some(value)
            },
            None => None,
        }
    }
}

} // verus!
