//! A map keyed by name that keeps its entries in insertion order.
//!
//! No name occurs twice.  Inserting under a name that is present replaces the
//! value and keeps the entry's place; a new name goes to the end.

use crate::text::{chars_of, push_all, same_chars, string_of};
use vstd::prelude::*;

verus! {

struct Entry<V> {
    name: Vec<char>,
    value: V,
}

/// An insertion-ordered map from names to values.
pub struct NameMap<V> {
    entries: Vec<Entry<V>>,
}

impl<V> NameMap<V> {
    /// The names, in insertion order.
    pub closed spec fn names(&self) -> Seq<Seq<char>> {
        Seq::new(self.entries@.len(), |i: int| self.entries@[i].name@)
    }

    /// The values, each at the index of its name.
    pub closed spec fn values(&self) -> Seq<V> {
        Seq::new(self.entries@.len(), |i: int| self.entries@[i].value)
    }

    #[verifier::type_invariant]
    spec fn distinct(&self) -> bool {
        self.names().no_duplicates()
    }

    /// The map from each name to its value.
    pub open spec fn view(&self) -> Map<Seq<char>, V> {
        Map::new(
            |name: Seq<char>| self.names().contains(name),
            |name: Seq<char>| self.values()[self.names().index_of(name)],
        )
    }

    /// An empty map.
    pub fn new() -> (m: Self)
        ensures
            m.names() == Seq::<Seq<char>>::empty(),
            m.values() == Seq::<V>::empty(),
            m@ == Map::<Seq<char>, V>::empty(),
    {
        let m = NameMap { entries: Vec::new() };
        assert(m.names() =~= Seq::<Seq<char>>::empty());
        assert(m.values() =~= Seq::<V>::empty());
        assert(m@ =~= Map::<Seq<char>, V>::empty());
        m
    }

    /// The number of entries.
    pub fn len(&self) -> (n: usize)
        ensures
            n == self.names().len(),
            n == self.values().len(),
            self.names().no_duplicates(),
    {
        proof {
            use_type_invariant(self);
        }
        self.entries.len()
    }

    /// The index of `name` among the names.
    fn position(&self, name: &Vec<char>) -> (found: Option<usize>)
        ensures
            self.names().no_duplicates(),
            match found {
                Some(i) => i < self.names().len() && self.names()[i as int] == name@
                    && self.names().index_of(name@) == i,
                None => !self.names().contains(name@),
            },
    {
        proof {
            use_type_invariant(self);
        }
        let mut i: usize = 0;
        while i < self.entries.len()
            invariant
                i <= self.entries.len(),
                self.names().no_duplicates(),
                forall|j: int| 0 <= j < i ==> self.names()[j] != name@,
            decreases self.entries.len() - i,
        {
            if same_chars(&self.entries[i].name, name) {
                assert(self.names()[i as int] == name@);
                return Some(i);
            }
            i += 1;
        }
        None
    }

    /// Whether `name` is present.
    pub fn contains_key(&self, name: &str) -> (present: bool)
        ensures
            present == self@.contains_key(name@),
    {
        let key = chars_of(name);
        self.position(&key).is_some()
    }

    /// The value under `name`.
    pub fn get(&self, name: &str) -> (found: Option<&V>)
        ensures
            match found {
                Some(v) => self@.contains_key(name@) && *v == self@[name@],
                None => !self@.contains_key(name@),
            },
    {
        let key = chars_of(name);
        match self.position(&key) {
            Some(i) => Some(&self.entries[i].value),
            None => None,
        }
    }

    /// The name of the entry at index `i`.
    pub fn name_at(&self, i: usize) -> (found: Option<String>)
        ensures
            match found {
                Some(name) => i < self.names().len() && name@ == self.names()[i as int],
                None => i >= self.names().len(),
            },
    {
        if i < self.entries.len() {
            Some(string_of(&self.entries[i].name))
        } else {
            None
        }
    }

    /// The characters of the name of the entry at index `i`.
    pub fn name_chars_at(&self, i: usize) -> (found: Option<&Vec<char>>)
        ensures
            match found {
                Some(name) => i < self.names().len() && name@ == self.names()[i as int],
                None => i >= self.names().len(),
            },
    {
        if i < self.entries.len() {
            Some(&self.entries[i].name)
        } else {
            None
        }
    }

    /// The value of the entry at index `i`.
    pub fn value_at(&self, i: usize) -> (found: Option<&V>)
        ensures
            match found {
                Some(v) => i < self.values().len() && *v == self.values()[i as int],
                None => i >= self.values().len(),
            },
    {
        if i < self.entries.len() {
            Some(&self.entries[i].value)
        } else {
            None
        }
    }

    /// Puts `value` under `name`.  A present name keeps its place and gets
    /// the new value; a new name goes to the end.
    pub fn insert(&mut self, name: &str, value: V)
        ensures
            final(self)@ == old(self)@.insert(name@, value),
            old(self)@.contains_key(name@) ==> {
                &&& final(self).names() == old(self).names()
                &&& final(self).values() == old(self).values().update(
                    old(self).names().index_of(name@),
                    value,
                )
            },
            !old(self)@.contains_key(name@) ==> {
                &&& final(self).names() == old(self).names().push(name@)
                &&& final(self).values() == old(self).values().push(value)
            },
    {
        let key = chars_of(name);
        let found = self.position(&key);
        let ghost old_names = self.names();
        let ghost old_values = self.values();
        let mut entries: Vec<Entry<V>> = Vec::new();
        std::mem::swap(&mut entries, &mut self.entries);
        assert(self.names() =~= Seq::<Seq<char>>::empty());
        match found {
            Some(i) => {
                entries.set(i, Entry { name: key, value });
            },
            None => {
                entries.push(Entry { name: key, value });
            },
        }
        proof {
            let new_names = Seq::new(entries@.len(), |i: int| entries@[i].name@);
            let new_values = Seq::new(entries@.len(), |i: int| entries@[i].value);
            match found {
                Some(i) => {
                    assert(new_names =~= old_names);
                    assert(new_values =~= old_values.update(i as int, value));
                },
                None => {
                    assert(new_names =~= old_names.push(name@));
                    assert(new_values =~= old_values.push(value));
                    assert forall|a: int, b: int|
                        0 <= a < new_names.len() && 0 <= b < new_names.len() && a
                            != b implies new_names[a] != new_names[b] by {
                        if a < old_names.len() && b < old_names.len() {
                        } else if a < old_names.len() {
                            assert(old_names.contains(old_names[a]));
                        } else {
                            assert(old_names.contains(old_names[b]));
                        }
                    }
                },
            }
        }
        self.entries = entries;
        proof {
            lemma_after_insert(old_names, old_values, *self, name@, value);
        }
    }
}

impl NameMap<usize> {
    /// A map with the same entries in the same order.
    pub fn duplicate(&self) -> (copy: Self)
        ensures
            copy.names() == self.names(),
            copy.values() == self.values(),
            copy@ == self@,
    {
        proof {
            use_type_invariant(self);
        }
        let mut entries: Vec<Entry<usize>> = Vec::new();
        let mut i: usize = 0;
        while i < self.entries.len()
            invariant
                i <= self.entries.len(),
                entries@.len() == i,
                forall|j: int|
                    0 <= j < i ==> (#[trigger] entries@[j]).name@ == self.entries@[j].name@
                        && entries@[j].value == self.entries@[j].value,
            decreases self.entries.len() - i,
        {
            let mut name: Vec<char> = Vec::new();
            push_all(&mut name, &self.entries[i].name);
            assert(name@ =~= self.entries@[i as int].name@);
            entries.push(Entry { name, value: self.entries[i].value });
            i += 1;
        }
        proof {
            let names = Seq::new(entries@.len(), |i: int| entries@[i].name@);
            assert(names =~= self.names());
        }
        let copy = NameMap { entries };
        assert(copy.names() =~= self.names());
        assert(copy.values() =~= self.values());
        copy
    }
}

/// Under the name of each entry stands that entry's value, and every name of
/// the map is the name of an entry.
pub proof fn lemma_entries<V>(map: NameMap<V>)
    requires
        map.names().no_duplicates(),
    ensures
        map.names().len() == map.values().len(),
        forall|i: int|
            0 <= i < map.names().len() ==> map@.contains_key(#[trigger] map.names()[i])
                && map@[map.names()[i]] == map.values()[i],
        forall|name: Seq<char>| #[trigger]
            map@.contains_key(name) ==> 0 <= map.names().index_of(name) < map.names().len()
                && map.names()[map.names().index_of(name)] == name,
{
    assert forall|i: int| 0 <= i < map.names().len() implies map@.contains_key(
        #[trigger] map.names()[i],
    ) && map@[map.names()[i]] == map.values()[i] by {
        let name = map.names()[i];
        let found = map.names().index_of(name);
        assert(map.names()[found] == name);
    }
}

/// The view after an insertion, from what the insertion did to the entries.
proof fn lemma_after_insert<V>(
    names: Seq<Seq<char>>,
    values: Seq<V>,
    after: NameMap<V>,
    name: Seq<char>,
    value: V,
)
    requires
        names.len() == values.len(),
        names.no_duplicates(),
        after.names().no_duplicates(),
        names.contains(name) ==> after.names() == names && after.values() == values.update(
            names.index_of(name),
            value,
        ),
        !names.contains(name) ==> after.names() == names.push(name) && after.values()
            == values.push(value),
    ensures
        after@ == Map::new(
            |n: Seq<char>| names.contains(n),
            |n: Seq<char>| values[names.index_of(n)],
        ).insert(name, value),
{
    let before = Map::new(
        |n: Seq<char>| names.contains(n),
        |n: Seq<char>| values[names.index_of(n)],
    );
    let want = before.insert(name, value);
    assert forall|n: Seq<char>| after@.contains_key(n) <==> want.contains_key(n) by {
        if names.contains(name) {
        } else {
            if after.names().contains(n) {
                let i = after.names().index_of(n);
                if i < names.len() {
                    assert(names[i] == n);
                }
            }
            if n == name {
                assert(after.names()[names.len() as int] == name);
            } else if names.contains(n) {
                let i = names.index_of(n);
                assert(after.names()[i] == n);
            }
        }
    }
    assert forall|n: Seq<char>| after@.contains_key(n) implies after@[n] == want[n] by {
        let i = after.names().index_of(n);
        assert(after.names()[i] == n);
        if names.contains(name) {
            let p = names.index_of(name);
            let q = names.index_of(n);
            assert(names[q] == n);
            assert(q == i);
        } else {
            if n == name {
                assert(after.names()[names.len() as int] == name);
                assert(i == names.len());
            } else {
                assert(i < names.len());
                let q = names.index_of(n);
                assert(names[i] == n);
                assert(names[q] == n);
                assert(q == i);
            }
        }
    }
    assert(after@ =~= want);
}

} // verus!
