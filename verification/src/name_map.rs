//! Maps from names to values.

use crate::sorted_names::{in_name_order, insert_name};
use crate::text::texts;
use vstd::prelude::*;

verus! {

/// A map from names to values. What is inserted last under a name is what the
/// name maps to.
#[derive(Debug)]
pub struct NameMap<V> {
    entries: Vec<(String, V)>,
}

/// The place of the last entry under `name`.
spec fn last_entry<V>(entries: Seq<(String, V)>, name: Seq<char>) -> Option<int>
    decreases entries.len(),
{
    if entries.len() == 0 {
        None
    } else if entries.last().0@ == name {
        Some(entries.len() - 1)
    } else {
        last_entry(entries.drop_last(), name)
    }
}

proof fn lemma_last_entry<V>(entries: Seq<(String, V)>, name: Seq<char>)
    ensures
        match last_entry(entries, name) {
            Some(i) => {
                &&& 0 <= i < entries.len()
                &&& entries[i].0@ == name
                &&& forall|j: int| i < j < entries.len() ==> (#[trigger] entries[j]).0@ != name
            },
            None => forall|j: int| 0 <= j < entries.len() ==> (#[trigger] entries[j]).0@ != name,
        },
    decreases entries.len(),
{
    if entries.len() > 0 && entries.last().0@ != name {
        let front = entries.drop_last();
        lemma_last_entry(front, name);
        assert forall|j: int| 0 <= j < entries.len() - 1 implies entries[j] == #[trigger] front[j] by {}
        match last_entry(front, name) {
            Some(i) => {
                assert forall|j: int| i < j < entries.len() implies (
                #[trigger] entries[j]).0@ != name by {
                    if j < front.len() {
                        assert(entries[j] == front[j]);
                    }
                }
            },
            None => {
                assert forall|j: int| 0 <= j < entries.len() implies (
                #[trigger] entries[j]).0@ != name by {
                    if j < front.len() {
                        assert(entries[j] == front[j]);
                    }
                }
            },
        }
    }
}

impl<V> View for NameMap<V> {
    type V = Map<Seq<char>, V>;

    closed spec fn view(&self) -> Map<Seq<char>, V> {
        Map::new(
            |name: Seq<char>| last_entry(self.entries@, name) is Some,
            |name: Seq<char>| self.entries@[last_entry(self.entries@, name)->0].1,
        )
    }
}

impl<V: Copy> Clone for NameMap<V> {
    fn clone(&self) -> (copy: NameMap<V>)
        ensures
            copy@ == self@,
    {
        let mut entries: Vec<(String, V)> = Vec::new();
        for i in 0..self.entries.len()
            invariant
                entries@ == self.entries@.take(i as int),
        {
            entries.push((self.entries[i].0.clone(), self.entries[i].1));
            assert(entries@ =~= self.entries@.take(i + 1));
        }
        assert(entries@ =~= self.entries@);
        NameMap { entries }
    }
}

impl<V> NameMap<V> {
    /// A map without names.
    pub fn new() -> (map: NameMap<V>)
        ensures
            map@ == Map::<Seq<char>, V>::empty(),
    {
        let map = NameMap { entries: Vec::new() };
        assert(map@ =~= Map::<Seq<char>, V>::empty());
        map
    }

    /// The place of the last entry under `name`.
    fn find(&self, name: &String) -> (place: Option<usize>)
        ensures
            match place {
                Some(i) => last_entry(self.entries@, name@) == Some(i as int),
                None => last_entry(self.entries@, name@) is None,
            },
    {
        proof {
            lemma_last_entry(self.entries@, name@);
        }
        let mut i: usize = self.entries.len();
        while i > 0
            invariant
                i <= self.entries.len(),
                forall|j: int| i <= j < self.entries.len() ==> (#[trigger] self.entries@[j]).0@
                    != name@,
            decreases i,
        {
            i = i - 1;
            if self.entries[i].0 == *name {
                proof {
                    lemma_last_entry(self.entries@, name@);
                }
                return Some(i);
            }
        }
        None
    }

    /// What `name` maps to.
    pub fn get(&self, name: &String) -> (value: Option<&V>)
        ensures
            match value {
                Some(v) => self@.contains_key(name@) && self@[name@] == *v,
                None => !self@.contains_key(name@),
            },
    {
        proof {
            lemma_last_entry(self.entries@, name@);
        }
        match self.find(name) {
            Some(i) => Some(&self.entries[i].1),
            None => None,
        }
    }

    /// Lets `name` map to `value` from now on.
    pub fn insert(&mut self, name: String, value: V)
        ensures
            final(self)@ == old(self)@.insert(name@, value),
    {
        let ghost before = self.entries@;
        let ghost key = name@;
        proof {
            lemma_last_entry(before, key);
        }
        match self.find(&name) {
            Some(i) => {
                self.entries[i] = (name, value);
            },
            None => {
                self.entries.push((name, value));
            },
        }
        proof {
            let after = self.entries@;
            assert forall|k: Seq<char>|
                #![trigger last_entry(after, k)]
                k != key implies last_entry(after, k) == last_entry(before, k)
                && (last_entry(before, k) is Some ==> after[last_entry(after, k)->0]
                == before[last_entry(before, k)->0]) by {
                lemma_last_entry(before, k);
                lemma_last_entry(before, key);
                lemma_last_entry(after, k);
                match (last_entry(before, k), last_entry(after, k)) {
                    (Some(i), Some(j)) => {
                        assert(before[i].0@ == k && after[j].0@ == k);
                        if j < before.len() {
                            assert(before[j].0@ == k);
                        }
                        assert(after[i].0@ == k);
                    },
                    (Some(i), None) => {
                        assert(after[i].0@ == k);
                    },
                    (None, Some(j)) => {
                        assert(after[j].0@ == k);
                        if j < before.len() {
                            assert(before[j].0@ == k);
                        }
                    },
                    (None, None) => {},
                }
            }
            lemma_last_entry(after, key);
            assert(self@ =~= old(self)@.insert(key, value));
        }
    }

    /// All names, in the order of their characters.
    pub fn names(&self) -> (names: Vec<String>)
        ensures
            in_name_order(texts(names@)),
            forall|name: Seq<char>| #[trigger]
                texts(names@).contains(name) <==> self@.contains_key(name),
    {
        let mut names: Vec<String> = Vec::new();
        for i in 0..self.entries.len()
            invariant
                in_name_order(texts(names@)),
                forall|name: Seq<char>| #[trigger]
                    texts(names@).contains(name) <==> exists|j: int|
                        0 <= j < i && (#[trigger] self.entries@[j]).0@ == name,
        {
            let ghost before = texts(names@);
            insert_name(&mut names, self.entries[i].0.clone());
            assert forall|name: Seq<char>| #[trigger]
                texts(names@).contains(name) <==> exists|j: int|
                    0 <= j < i + 1 && (#[trigger] self.entries@[j]).0@ == name by {
                if before.contains(name) {
                    let j = choose|j: int| 0 <= j < i && (#[trigger] self.entries@[j]).0@ == name;
                    assert(self.entries@[j].0@ == name);
                }
                if name == self.entries@[i as int].0@ {
                    assert(self.entries@[i as int].0@ == name);
                }
            }
        }
        proof {
            assert forall|name: Seq<char>| #[trigger]
                texts(names@).contains(name) <==> self@.contains_key(name) by {
                lemma_last_entry(self.entries@, name);
            }
        }
        names
    }
}

} // verus!
