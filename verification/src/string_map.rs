//! A map from names to values that remembers the order in which the names came.
use vstd::prelude::*;
use vstd::string::*;

use crate::text::same;

verus! {

/// A map keyed by strings. No name occurs twice.
pub struct StringMap<V> {
    entries: Vec<(String, V)>,
}

impl<V> View for StringMap<V> {
    type V = Map<Seq<char>, V>;

    closed spec fn view(&self) -> Map<Seq<char>, V> {
        Map::new(
            |k: Seq<char>| self.keys().contains(k),
            |k: Seq<char>| self.entries@[self.keys().index_of(k)].1,
        )
    }
}

impl<V> StringMap<V> {
    /// The names, in the order in which each was first put in.
    pub closed spec fn keys(&self) -> Seq<Seq<char>> {
        self.entries@.map_values(|e: (String, V)| e.0@)
    }

    #[verifier::type_invariant]
    spec fn names_are_distinct(self) -> bool {
        self.keys().no_duplicates()
    }

    /// An empty map.
    pub fn new() -> (r: Self)
        ensures
            r@ == Map::<Seq<char>, V>::empty(),
            r.keys() == Seq::<Seq<char>>::empty(),
    {
        let r = StringMap { entries: Vec::new() };
        assert(r.keys() =~= Seq::<Seq<char>>::empty());
        assert(r@ =~= Map::<Seq<char>, V>::empty());
        r
    }

    /// The number of names.
    pub fn len(&self) -> (r: usize)
        ensures
            r == self.keys().len(),
    {
        self.entries.len()
    }

    /// The place of `key` among the names.
    fn find(&self, key: &str) -> (r: Option<usize>)
        ensures
            match r {
                Some(i) => i < self.keys().len() && self.keys()[i as int] == key@,
                None => !self.keys().contains(key@),
            },
    {
        let mut i: usize = 0;
        while i < self.entries.len()
            invariant
                i <= self.entries@.len(),
                forall|j: int| 0 <= j < i ==> #[trigger] self.keys()[j] != key@,
            decreases self.entries@.len() - i,
        {
            if same(self.entries[i].0.as_str(), key) {
                return Some(i);
            }
            i = i + 1;
        }
        None
    }

    /// Puts `value` under `key`, in the place of what stood there.
    pub fn insert(&mut self, key: String, value: V)
        ensures
            final(self)@ == old(self)@.insert(key@, value),
            final(self).keys() == (if old(self).keys().contains(key@) {
                old(self).keys()
            } else {
                old(self).keys().push(key@)
            }),
    {
        proof {
            use_type_invariant(&*self);
        }
        let ghost before = *self;
        let ghost name = key@;
        let place = self.find(key.as_str());
        let mut entries: Vec<(String, V)> = Vec::new();
        std::mem::swap(&mut entries, &mut self.entries);
        match place {
            Some(i) => {
                entries.set(i, (key, value));
            },
            None => {
                entries.push((key, value));
            },
        }
        let ghost after = StringMap { entries };
        assert(after.keys() =~= (if before.keys().contains(name) {
            before.keys()
        } else {
            before.keys().push(name)
        }));
        assert(after.keys().no_duplicates());
        self.entries = entries;
        assert(self@ =~= before@.insert(name, value)) by {
            assert forall|k: Seq<char>| self@.dom().contains(k) == before@.insert(
                name,
                value,
            ).dom().contains(k) by {
                if before.keys().contains(k) {
                    let j = before.keys().index_of(k);
                    assert(self.keys()[j] == k);
                }
                if k == name {
                    match place {
                        Some(i) => {
                            assert(self.keys()[i as int] == k);
                        },
                        None => {
                            assert(self.keys()[self.keys().len() - 1] == k);
                        },
                    }
                }
            }
            assert forall|k: Seq<char>| self@.dom().contains(k) implies self@[k] == before@.insert(
                name,
                value,
            )[k] by {
                let j = self.keys().index_of(k);
                assert(self.keys()[j] == k);
                if k == name {
                    match place {
                        Some(i) => {
                            assert(self.keys()[i as int] == k);
                            assert(j == i);
                        },
                        None => {
                            assert(self.keys()[self.keys().len() - 1] == k);
                            assert(j == self.keys().len() - 1);
                        },
                    }
                } else {
                    assert(j < before.keys().len());
                    assert(before.keys()[j] == k);
                    assert(before.keys().contains(k));
                    assert(before.keys().index_of(k) == j);
                }
            }
        }
    }

    /// The value under `key`.
    pub fn get(&self, key: &str) -> (r: Option<&V>)
        ensures
            match r {
                Some(v) => self@.contains_key(key@) && *v == self@[key@],
                None => !self@.contains_key(key@),
            },
    {
        proof {
            use_type_invariant(self);
        }
        match self.find(key) {
            Some(i) => {
                assert(self.keys().contains(key@));
                assert(self.keys().index_of(key@) == i);
                Some(&self.entries[i].1)
            },
            None => None,
        }
    }

    /// The name and the value in the given place.
    pub fn entry(&self, i: usize) -> (r: (&String, &V))
        requires
            i < self.keys().len(),
        ensures
            r.0@ == self.keys()[i as int],
            self@.contains_key(r.0@),
            *r.1 == self@[r.0@],
    {
        proof {
            use_type_invariant(self);
            assert(self.keys().contains(self.keys()[i as int]));
            assert(self.keys().index_of(self.keys()[i as int]) == i);
        }
        (&self.entries[i].0, &self.entries[i].1)
    }
}

/// A name is in the map exactly when it is among its names.
pub proof fn keys_are_the_domain<V>(m: &StringMap<V>, k: Seq<char>)
    ensures
        m@.contains_key(k) <==> m.keys().contains(k),
{
}

} // verus!
