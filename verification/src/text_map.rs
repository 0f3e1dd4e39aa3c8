//! Map with text keys, kept in ascending key order.

use crate::text::{self, str_eq, text_lt};
use vstd::prelude::*;

verus! {

/// A map from texts, kept in ascending key order.
#[derive(Debug, PartialEq, Eq)]
pub struct TextMap<V> {
    entries: Vec<(String, V)>,
}

/// The keys of a list of entries.
spec fn keys_of<V>(entries: Seq<(String, V)>) -> Seq<Seq<char>> {
    entries.map_values(|e: (String, V)| e.0@)
}

/// The map of a list of entries.
spec fn map_of<V>(entries: Seq<(String, V)>) -> Map<Seq<char>, V> {
    Map::new(
        |k: Seq<char>| keys_of(entries).contains(k),
        |k: Seq<char>| entries[keys_of(entries).index_of(k)].1,
    )
}

impl<V> View for TextMap<V> {
    type V = Map<Seq<char>, V>;

    closed spec fn view(&self) -> Map<Seq<char>, V> {
        map_of(self.entries@)
    }
}

impl<V> TextMap<V> {
    /// The keys in ascending order.
    pub closed spec fn keys(&self) -> Seq<Seq<char>> {
        keys_of(self.entries@)
    }

    /// Whether the keys are the map's keys in ascending order.
    pub open spec fn ordered(&self) -> bool {
        &&& text::strictly_sorted(self.keys())
        &&& forall|k: Seq<char>| #[trigger]
            self@.contains_key(k) <==> self.keys().contains(k)
    }

    #[verifier::type_invariant]
    spec fn sorted(self) -> bool {
        text::strictly_sorted(keys_of(self.entries@))
    }

    pub fn new() -> (r: Self)
        ensures
            r@ == Map::<Seq<char>, V>::empty(),
            r.keys() == Seq::<Seq<char>>::empty(),
    {
        let r: TextMap<V> = TextMap { entries: Vec::new() };
        assert(r@ =~= Map::<Seq<char>, V>::empty());
        assert(r.keys() =~= Seq::<Seq<char>>::empty());
        r
    }

    pub fn len(&self) -> (n: usize)
        ensures
            n == self.keys().len(),
            self.ordered(),
    {
        proof {
            use_type_invariant(self);
        }
        self.entries.len()
    }

    /// The entry at a position of the ascending key order.
    pub fn at(&self, i: usize) -> (r: (&String, &V))
        requires
            i < self.keys().len(),
        ensures
            r.0@ == self.keys()[i as int],
            self@.contains_key(r.0@),
            *r.1 == self@[r.0@],
            self.ordered(),
    {
        proof {
            use_type_invariant(self);
            let keys = keys_of(self.entries@);
            let k = keys[i as int];
            assert(keys.contains(k));
            let j = keys.index_of(k);
            assert(keys[j] == k);
            text::lex_irreflexive(k);
            assert(j == i);
        }
        let e: &(String, V) = &self.entries[i];
        (&e.0, &e.1)
    }

    /// The first position whose key is not below `key`.
    fn slot(&self, key: &str) -> (r: usize)
        ensures
            r <= self.entries@.len(),
            forall|i: int|
                0 <= i < r ==> text::lex_lt(#[trigger] keys_of(self.entries@)[i], key@),
            r < self.entries@.len() ==> !text::lex_lt(keys_of(self.entries@)[r as int], key@),
    {
        let mut i: usize = 0;
        while i < self.entries.len() && text_lt(self.entries[i].0.as_str(), key)
            invariant
                i <= self.entries@.len(),
                forall|j: int|
                    0 <= j < i ==> text::lex_lt(#[trigger] keys_of(self.entries@)[j], key@),
            decreases self.entries@.len() - i,
        {
            i += 1;
        }
        i
    }

    /// Whether `slot` is the position of `key`, or no position is.
    proof fn slot_decides(entries: Seq<(String, V)>, key: Seq<char>, slot: int)
        requires
            text::strictly_sorted(keys_of(entries)),
            0 <= slot <= entries.len(),
            forall|i: int| 0 <= i < slot ==> text::lex_lt(#[trigger] keys_of(entries)[i], key),
            slot < entries.len() ==> !text::lex_lt(keys_of(entries)[slot], key),
        ensures
            map_of(entries).contains_key(key) <==> slot < entries.len() && keys_of(entries)[slot]
                == key,
            slot < entries.len() && keys_of(entries)[slot] == key ==> map_of(entries)[key]
                == entries[slot].1,
            forall|i: int|
                slot <= i < entries.len() && keys_of(entries)[slot] != key ==> text::lex_lt(
                    key,
                    #[trigger] keys_of(entries)[i],
                ),
    {
        let keys = keys_of(entries);
        text::lex_irreflexive(key);
        if slot < entries.len() {
            text::lex_total(keys[slot], key);
            assert forall|i: int| slot <= i < entries.len() && keys[slot] != key implies text::lex_lt(
                key,
                #[trigger] keys[i],
            ) by {
                if slot < i {
                    text::lex_transitive(key, keys[slot], keys[i]);
                }
            }
        }
        if keys.contains(key) {
            let j = keys.index_of(key);
            assert(keys[j] == key);
            assert(j >= slot);
            if slot < entries.len() {
                if keys[slot] == key && j != slot {
                    assert(text::lex_lt(keys[slot], keys[j]));
                }
            }
        }
    }

    pub fn get(&self, key: &str) -> (r: Option<&V>)
        ensures
            match r {
                Some(v) => self@.contains_key(key@) && *v == self@[key@],
                None => !self@.contains_key(key@),
            },
    {
        proof {
            use_type_invariant(self);
        }
        let i: usize = self.slot(key);
        proof {
            Self::slot_decides(self.entries@, key@, i as int);
        }
        if i < self.entries.len() && str_eq(self.entries[i].0.as_str(), key) {
            Some(&self.entries[i].1)
        } else {
            None
        }
    }

    pub fn contains_key(&self, key: &str) -> (r: bool)
        ensures
            r == self@.contains_key(key@),
    {
        self.get(key).is_some()
    }

    pub fn insert(&mut self, key: String, value: V)
        ensures
            final(self)@ == old(self)@.insert(key@, value),
    {
        proof {
            use_type_invariant(&*self);
        }
        let i: usize = self.slot(key.as_str());
        proof {
            Self::slot_decides(self.entries@, key@, i as int);
        }
        let present: bool = i < self.entries.len() && str_eq(
            self.entries[i].0.as_str(),
            key.as_str(),
        );
        let ghost before = self.entries@;
        let mut entries: Vec<(String, V)> = Vec::new();
        std::mem::swap(&mut entries, &mut self.entries);
        if present {
            let ghost added = (key, value);
            entries.set(i, (key, value));
            proof {
                assert(keys_of(entries@) =~= keys_of(before));
                Self::replaced(before, i as int, added);
            }
        } else {
            let ghost added = (key, value);
            entries.insert(i, (key, value));
            proof {
                Self::inserted(before, i as int, added);
            }
        }
        self.entries = entries;
    }

    proof fn replaced(before: Seq<(String, V)>, i: int, added: (String, V))
        requires
            text::strictly_sorted(keys_of(before)),
            0 <= i < before.len(),
            keys_of(before)[i] == added.0@,
        ensures
            map_of(before.update(i, added)) == map_of(before).insert(added.0@, added.1),
            keys_of(before.update(i, added)) == keys_of(before),
    {
        let after = before.update(i, added);
        let keys = keys_of(before);
        assert(keys_of(after) =~= keys);
        assert forall|k: Seq<char>| keys.contains(k) implies #[trigger] map_of(after)[k]
            == map_of(before).insert(added.0@, added.1)[k] by {
            let j = keys.index_of(k);
            assert(keys[j] == k);
            if k == added.0@ && j != i {
                text::lex_irreflexive(k);
                assert(j < i || i < j);
            }
        }
        assert(keys.contains(added.0@)) by {
            assert(keys[i] == added.0@);
        }
        assert(map_of(after) =~= map_of(before).insert(added.0@, added.1));
    }

    proof fn inserted(before: Seq<(String, V)>, i: int, added: (String, V))
        requires
            text::strictly_sorted(keys_of(before)),
            0 <= i <= before.len(),
            forall|j: int| 0 <= j < i ==> text::lex_lt(#[trigger] keys_of(before)[j], added.0@),
            forall|j: int|
                i <= j < before.len() ==> text::lex_lt(added.0@, #[trigger] keys_of(before)[j]),
        ensures
            map_of(before.insert(i, added)) == map_of(before).insert(added.0@, added.1),
            text::strictly_sorted(keys_of(before.insert(i, added))),
    {
        let after = before.insert(i, added);
        let keys = keys_of(before);
        let new_keys = keys_of(after);
        assert(new_keys =~= keys.insert(i, added.0@));
        assert(text::strictly_sorted(new_keys)) by {
            assert forall|a: int, b: int| 0 <= a < b < new_keys.len() implies text::lex_lt(
                #[trigger] new_keys[a],
                #[trigger] new_keys[b],
            ) by {
                let x = if a < i {
                    a
                } else {
                    a - 1
                };
                let y = if b < i {
                    b
                } else {
                    b - 1
                };
                if a != i {
                    assert(new_keys[a] == keys[x]);
                }
                if b != i {
                    assert(new_keys[b] == keys[y]);
                }
            }
        }
        assert forall|k: Seq<char>| new_keys.contains(k) == (keys.contains(k) || k == added.0@) by {
            if keys.contains(k) {
                let j = keys.index_of(k);
                assert(keys[j] == k);
                assert(new_keys[if j < i {
                    j
                } else {
                    j + 1
                }] == k);
            }
            if k == added.0@ {
                assert(new_keys[i] == k);
            }
            if new_keys.contains(k) {
                let j = new_keys.index_of(k);
                assert(new_keys[j] == k);
                if j < i {
                    assert(keys[j] == k);
                } else if j > i {
                    assert(keys[j - 1] == k);
                }
            }
        }
        assert forall|k: Seq<char>| new_keys.contains(k) implies #[trigger] map_of(after)[k]
            == map_of(before).insert(added.0@, added.1)[k] by {
            let j = new_keys.index_of(k);
            assert(new_keys[j] == k);
            text::lex_irreflexive(k);
            if k == added.0@ {
                if j < i {
                    assert(keys[j] == k);
                } else if j > i {
                    assert(keys[j - 1] == k);
                }
            } else {
                let m = keys.index_of(k);
                assert(keys.contains(k));
                assert(keys[m] == k);
                let e = if m < i {
                    m
                } else {
                    m + 1
                };
                assert(new_keys[e] == k);
                assert(e == j);
            }
        }
        assert(map_of(after) =~= map_of(before).insert(added.0@, added.1));
    }
}

} // verus!
