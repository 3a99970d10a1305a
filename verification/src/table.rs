//! Small look-up tables keyed by a path or by a text.

use crate::path::MediaPath;
use crate::path_key::{path_key, same_key};
use crate::text::str_eq;
use vstd::prelude::*;

verus! {

/// Whether no two entries have the same key.
spec fn keys_distinct<K: View, V>(entries: Seq<(K, V)>) -> bool {
    forall|i: int, j: int|
        0 <= i < j < entries.len() ==> (#[trigger] entries[i]).0@ != (#[trigger] entries[j]).0@
}

/// Whether an entry has the key.
spec fn entry<K: View, V>(entries: Seq<(K, V)>, key: K::V, i: int) -> bool {
    0 <= i < entries.len() && entries[i].0@ == key
}

/// What the entries map each key to.
spec fn map_of<K: View, V>(entries: Seq<(K, V)>) -> Map<K::V, V> {
    Map::new(
        |key: K::V| exists|i: int| entry(entries, key, i),
        |key: K::V| entries[choose|i: int| entry(entries, key, i)].1,
    )
}

proof fn lemma_updated<K: View, V>(
    before: Seq<(K, V)>,
    at: int,
    after: Seq<(K, V)>,
    key: K::V,
    value: V,
)
    requires
        keys_distinct(before),
        0 <= at < before.len(),
        before[at].0@ == key,
        after.len() == before.len(),
        after[at].0@ == key,
        after[at].1 == value,
        forall|i: int| 0 <= i < before.len() && i != at ==> after[i] == before[i],
    ensures
        keys_distinct(after),
        map_of(after) == map_of(before).insert(key, value),
{
    assert forall|i: int, j: int| 0 <= i < j < after.len() implies (#[trigger] after[i]).0@ != (
    #[trigger] after[j]).0@ by {
        assert(before[i].0@ != before[j].0@);
    }
    assert forall|k: K::V|
        map_of(before).insert(key, value).contains_key(k) == #[trigger] map_of(
            after,
        ).contains_key(k) && (map_of(after).contains_key(k) ==> map_of(after)[k] == map_of(
            before,
        ).insert(key, value)[k]) by {
        if k == key {
            assert(entry(after, k, at));
            assert(entry(before, k, at));
        } else if map_of(before).contains_key(k) {
            let b = choose|i: int| entry(before, k, i);
            assert(entry(after, k, b));
            let a = choose|i: int| entry(after, k, i);
            assert(a == b);
        } else if map_of(after).contains_key(k) {
            let a = choose|i: int| entry(after, k, i);
            assert(entry(before, k, a));
        }
    }
    assert(map_of(after) =~= map_of(before).insert(key, value));
}

proof fn lemma_pushed<K: View, V>(
    before: Seq<(K, V)>,
    after: Seq<(K, V)>,
    key: K::V,
    value: V,
)
    requires
        keys_distinct(before),
        forall|i: int| 0 <= i < before.len() ==> (#[trigger] before[i]).0@ != key,
        after.len() == before.len() + 1,
        after.last().0@ == key,
        after.last().1 == value,
        forall|i: int| 0 <= i < before.len() ==> after[i] == before[i],
    ensures
        keys_distinct(after),
        map_of(after) == map_of(before).insert(key, value),
{
    let at = before.len() as int;
    assert forall|i: int, j: int| 0 <= i < j < after.len() implies (#[trigger] after[i]).0@ != (
    #[trigger] after[j]).0@ by {
        if j < at {
            assert(before[i].0@ != before[j].0@);
        } else {
            assert(before[i].0@ != key);
        }
    }
    assert forall|k: K::V|
        map_of(before).insert(key, value).contains_key(k) == #[trigger] map_of(
            after,
        ).contains_key(k) && (map_of(after).contains_key(k) ==> map_of(after)[k] == map_of(
            before,
        ).insert(key, value)[k]) by {
        if k == key {
            assert(entry(after, k, at));
            let a = choose|i: int| entry(after, k, i);
            assert(a == at);
        } else if map_of(before).contains_key(k) {
            let b = choose|i: int| entry(before, k, i);
            assert(entry(after, k, b));
            let a = choose|i: int| entry(after, k, i);
            assert(a == b);
        } else if map_of(after).contains_key(k) {
            let a = choose|i: int| entry(after, k, i);
            assert(a < at);
            assert(entry(before, k, a));
        }
    }
    assert(map_of(after) =~= map_of(before).insert(key, value));
}

/// A table keyed by a path. Two paths with the same components are one key.
#[derive(Debug)]
pub struct PathTable<V> {
    entries: Vec<(Vec<u16>, V)>,
}

impl<V> View for PathTable<V> {
    type V = Map<Seq<u16>, V>;

    closed spec fn view(&self) -> Map<Seq<u16>, V> {
        map_of(self.entries@)
    }
}

impl<V> PathTable<V> {
    /// Whether every key has one entry.
    pub closed spec fn wf(&self) -> bool {
        keys_distinct(self.entries@)
    }

    /// An empty table.
    pub fn new() -> (table: Self)
        ensures
            table.wf(),
            table@ == Map::<Seq<u16>, V>::empty(),
    {
        let table = PathTable { entries: Vec::new() };
        assert(table@ =~= Map::<Seq<u16>, V>::empty());
        table
    }

    fn find(&self, key: &[u16]) -> (at: Option<usize>)
        requires
            self.wf(),
        ensures
            match at {
                Some(i) => {
                    &&& i < self.entries.len()
                    &&& self.entries@[i as int].0@ == key@
                    &&& self@.contains_key(key@)
                    &&& self@[key@] == self.entries@[i as int].1
                },
                None => !self@.contains_key(key@) && forall|i: int|
                    0 <= i < self.entries.len() ==> (#[trigger] self.entries@[i]).0@ != key@,
            },
    {
        let mut i: usize = 0;
        while i < self.entries.len()
            invariant
                self.wf(),
                i <= self.entries.len(),
                forall|k: int| 0 <= k < i ==> (#[trigger] self.entries@[k]).0@ != key@,
            decreases self.entries.len() - i,
        {
            if same_key(self.entries[i].0.as_slice(), key) {
                proof {
                    assert(entry(self.entries@, key@, i as int));
                    let c = choose|c: int| entry(self.entries@, key@, c);
                    assert(c == i);
                }
                return Some(i);
            }
            i += 1;
        }
        None
    }

    /// What is kept under a path.
    pub fn get(&self, path: &MediaPath) -> (value: Option<&V>)
        requires
            self.wf(),
        ensures
            match value {
                Some(v) => self@.contains_key(path_key(path@)) && self@[path_key(path@)] == *v,
                None => !self@.contains_key(path_key(path@)),
            },
    {
        let key = path.key();
        match self.find(key.as_slice()) {
            Some(i) => Some(&self.entries[i].1),
            None => None,
        }
    }

    /// Keeps a value under a path, in place of what was there.
    pub fn insert(&mut self, path: &MediaPath, value: V)
        requires
            old(self).wf(),
        ensures
            final(self).wf(),
            final(self)@ == old(self)@.insert(path_key(path@), value),
    {
        let key = path.key();
        let ghost before = self.entries@;
        match self.find(key.as_slice()) {
            Some(i) => {
                self.entries.set(i, (key, value));
                proof {
                    lemma_updated(before, i as int, self.entries@, key@, value);
                }
            },
            None => {
                self.entries.push((key, value));
                proof {
                    lemma_pushed(before, self.entries@, key@, value);
                }
            },
        }
    }
}

/// A table keyed by a text.
#[derive(Debug)]
pub struct TextTable<V> {
    entries: Vec<(String, V)>,
}

impl<V> View for TextTable<V> {
    type V = Map<Seq<char>, V>;

    closed spec fn view(&self) -> Map<Seq<char>, V> {
        map_of(self.entries@)
    }
}

impl<V> TextTable<V> {
    /// Whether every key has one entry.
    pub closed spec fn wf(&self) -> bool {
        keys_distinct(self.entries@)
    }

    /// An empty table.
    pub fn new() -> (table: Self)
        ensures
            table.wf(),
            table@ == Map::<Seq<char>, V>::empty(),
    {
        let table = TextTable { entries: Vec::new() };
        assert(table@ =~= Map::<Seq<char>, V>::empty());
        table
    }

    fn find(&self, key: &str) -> (at: Option<usize>)
        requires
            self.wf(),
        ensures
            match at {
                Some(i) => {
                    &&& i < self.entries.len()
                    &&& self.entries@[i as int].0@ == key@
                    &&& self@.contains_key(key@)
                    &&& self@[key@] == self.entries@[i as int].1
                },
                None => !self@.contains_key(key@) && forall|i: int|
                    0 <= i < self.entries.len() ==> (#[trigger] self.entries@[i]).0@ != key@,
            },
    {
        let mut i: usize = 0;
        while i < self.entries.len()
            invariant
                self.wf(),
                i <= self.entries.len(),
                forall|k: int| 0 <= k < i ==> (#[trigger] self.entries@[k]).0@ != key@,
            decreases self.entries.len() - i,
        {
            if str_eq(self.entries[i].0.as_str(), key) {
                proof {
                    assert(entry(self.entries@, key@, i as int));
                    let c = choose|c: int| entry(self.entries@, key@, c);
                    assert(c == i);
                }
                return Some(i);
            }
            i += 1;
        }
        None
    }

    /// What is kept under a text.
    pub fn get(&self, key: &str) -> (value: Option<&V>)
        requires
            self.wf(),
        ensures
            match value {
                Some(v) => self@.contains_key(key@) && self@[key@] == *v,
                None => !self@.contains_key(key@),
            },
    {
        match self.find(key) {
            Some(i) => Some(&self.entries[i].1),
            None => None,
        }
    }

    /// Keeps a value under a text, in place of what was there.
    pub fn insert(&mut self, key: String, value: V)
        requires
            old(self).wf(),
        ensures
            final(self).wf(),
            final(self)@ == old(self)@.insert(key@, value),
    {
        let ghost before = self.entries@;
        match self.find(key.as_str()) {
            Some(i) => {
                self.entries.set(i, (key, value));
                proof {
                    lemma_updated(before, i as int, self.entries@, key@, value);
                }
            },
            None => {
                self.entries.push((key, value));
                proof {
                    lemma_pushed(before, self.entries@, key@, value);
                }
            },
        }
    }
}

} // verus!
