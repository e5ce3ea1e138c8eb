//! A map from texts to values that is walked in the order of its keys.

use crate::text::{precedes, precedes_is_an_order, same, text_precedes, Text};
use vstd::prelude::*;

verus! {

/// A map from texts to values. Its content is the sequence of its entries in
/// the order of their keys, which are distinct.
#[derive(Debug, Eq, PartialEq)]
pub struct Table<T> {
    entries: Vec<(String, T)>,
}

/// Entries with distinct keys, in order.
pub open spec fn sorted<T>(entries: Seq<(Text, T)>) -> bool {
    forall|i: int, j: int|
        0 <= i < j < entries.len() ==> precedes(#[trigger] entries[i].0, #[trigger] entries[j].0)
}

/// Whether some entry has the key `key`.
pub open spec fn has_key<T>(entries: Seq<(Text, T)>, key: Text) -> bool {
    exists|i: int| 0 <= i < entries.len() && #[trigger] entries[i].0 == key
}

/// The position of an entry with the key `key`.
pub open spec fn position_of<T>(entries: Seq<(Text, T)>, key: Text) -> int {
    choose|i: int| 0 <= i < entries.len() && #[trigger] entries[i].0 == key
}

/// The value of an entry with the key `key`.
pub open spec fn value_of<T>(entries: Seq<(Text, T)>, key: Text) -> T {
    entries[position_of(entries, key)].1
}

/// The map that a sequence of entries stands for.
pub open spec fn as_map<T>(entries: Seq<(Text, T)>) -> Map<Text, T> {
    Map::new(|key: Text| has_key(entries, key), |key: Text| value_of(entries, key))
}

/// Among sorted entries, each is the one found under its key.
pub proof fn entries_are_unique<T>(entries: Seq<(Text, T)>, at: int)
    requires
        sorted(entries),
        0 <= at < entries.len(),
    ensures
        has_key(entries, entries[at].0),
        value_of(entries, entries[at].0) == entries[at].1,
{
    let key = entries[at].0;
    let k = position_of(entries, key);
    assert(entries[at].0 == key);
    if k < at {
        precedes_is_an_order(entries[k].0, entries[at].0, key);
    } else if at < k {
        precedes_is_an_order(entries[at].0, entries[k].0, key);
    }
}

impl<T> View for Table<T> {
    type V = Seq<(Text, T)>;

    closed spec fn view(&self) -> Seq<(Text, T)> {
        self.entries@.map_values(|entry: (String, T)| (entry.0@, entry.1))
    }
}

impl<T> Default for Table<T> {
    fn default() -> (r: Self)
        ensures
            r@.len() == 0,
    {
        Table::new()
    }
}

impl<T> Table<T> {
    #[verifier::type_invariant]
    spec fn in_order(self) -> bool {
        sorted(self@)
    }

    pub fn new() -> (r: Table<T>)
        ensures
            r@.len() == 0,
    {
        let entries: Vec<(String, T)> = Vec::new();
        Table { entries }
    }

    pub fn len(&self) -> (r: usize)
        ensures
            r == self@.len(),
            sorted(self@),
    {
        proof {
            use_type_invariant(self);
        }
        self.entries.len()
    }

    /// The key of the entry number `i`.
    pub fn key(&self, i: usize) -> (r: &String)
        requires
            i < self@.len(),
        ensures
            r@ == self@[i as int].0,
    {
        &self.entries[i].0
    }

    /// The value of the entry number `i`.
    pub fn value(&self, i: usize) -> (r: &T)
        requires
            i < self@.len(),
        ensures
            *r == self@[i as int].1,
    {
        &self.entries[i].1
    }

    /// The value under `key`.
    pub fn get(&self, key: &str) -> (r: Option<&T>)
        ensures
            r is Some <==> has_key(self@, key@),
            r matches Some(value) ==> *value == value_of(self@, key@),
            sorted(self@),
    {
        proof {
            use_type_invariant(self);
        }
        let mut i: usize = 0;
        while i < self.entries.len()
            invariant
                i <= self.entries@.len(),
                sorted(self@),
                forall|k: int| 0 <= k < i ==> #[trigger] self@[k].0 != key@,
            decreases self.entries@.len() - i,
        {
            assert(self@[i as int].0 == self.entries@[i as int].0@);
            if same(&self.entries[i].0, key) {
                proof {
                    entries_are_unique(self@, i as int);
                }
                return Some(&self.entries[i].1);
            }
            i += 1;
        }
        None
    }

    /// Adds an entry behind all others.
    pub fn append(&mut self, key: String, value: T)
        requires
            forall|k: int| 0 <= k < old(self)@.len() ==> precedes(#[trigger] old(self)@[k].0, key@),
        ensures
            final(self)@ == old(self)@.push((key@, value)),
            sorted(final(self)@),
    {
        proof {
            use_type_invariant(&*self);
        }
        let ghost before = self@;
        let ghost added = (key@, value);
        let mut entries: Vec<(String, T)> = Vec::new();
        core::mem::swap(&mut self.entries, &mut entries);
        entries.push((key, value));
        let ghost after = entries@.map_values(|entry: (String, T)| (entry.0@, entry.1));
        assert(after =~= before.push(added));
        self.entries = entries;
        assert(self@ == after);
    }

    /// Sets the value under `key`, in place of one that was there before.
    pub fn put(&mut self, key: String, value: T)
        ensures
            as_map(final(self)@) == as_map(old(self)@).insert(key@, value),
            sorted(final(self)@),
    {
        proof {
            use_type_invariant(&*self);
        }
        let ghost before = self@;
        let mut entries: Vec<(String, T)> = Vec::new();
        core::mem::swap(&mut self.entries, &mut entries);
        let mut at: usize = 0;
        while at < entries.len() && text_precedes(&entries[at].0, &key)
            invariant
                before == entries@.map_values(|entry: (String, T)| (entry.0@, entry.1)),
                sorted(before),
                at <= entries@.len(),
                forall|k: int| 0 <= k < at ==> precedes(#[trigger] before[k].0, key@),
            decreases entries@.len() - at,
        {
            assert(before[at as int].0 == entries@[at as int].0@);
            at += 1;
        }
        let replaces = at < entries.len() && same(&entries[at].0, &key);
        let ghost added = (key@, value);
        if replaces {
            entries.set(at, (key, value));
        } else {
            entries.insert(at, (key, value));
        }
        let ghost after = entries@.map_values(|entry: (String, T)| (entry.0@, entry.1));
        proof {
            if replaces {
                assert(after =~= before.update(at as int, added));
            } else {
                assert(after =~= before.insert(at as int, added));
            }
            put_keeps_order(before, at as int, added, replaces);
        }
        self.entries = entries;
        assert(self@ == after);
    }
}

/// Putting an entry where it belongs keeps the order and changes the map in
/// that one place.
proof fn put_keeps_order<T>(before: Seq<(Text, T)>, at: int, added: (Text, T), replaces: bool)
    requires
        sorted(before),
        0 <= at <= before.len(),
        forall|k: int| 0 <= k < at ==> precedes(#[trigger] before[k].0, added.0),
        at < before.len() ==> !precedes(before[at].0, added.0),
        replaces <==> at < before.len() && before[at].0 == added.0,
    ensures
        ({
            let after = if replaces {
                before.update(at, added)
            } else {
                before.insert(at, added)
            };
            &&& sorted(after)
            &&& as_map(after) == as_map(before).insert(added.0, added.1)
        }),
{
    let after = if replaces {
        before.update(at, added)
    } else {
        before.insert(at, added)
    };
    let key = added.0;
    if at < before.len() {
        precedes_is_an_order(before[at].0, key, key);
    }
    assert forall|i: int, j: int| 0 <= i < j < after.len() implies precedes(
        #[trigger] after[i].0,
        #[trigger] after[j].0,
    ) by {
        let bi = if i <= at || replaces {
            i
        } else {
            i - 1
        };
        let bj = if j <= at || replaces {
            j
        } else {
            j - 1
        };
        if i == at {
            assert(after[j] == before[bj]);
            if bj != at {
                assert(precedes(before[at].0, before[bj].0));
                precedes_is_an_order(key, before[at].0, before[bj].0);
            }
        } else if j == at {
            assert(after[i] == before[i]);
        } else {
            assert(after[i] == before[bi]);
            assert(after[j] == before[bj]);
        }
    }
    assert(after[at] == added);
    entries_are_unique(after, at);
    assert forall|other: Text|
        has_key(after, other) == (has_key(before, other) || other == key) && (other != key
            && has_key(after, other) ==> value_of(after, other) == value_of(before, other)) by {
        if has_key(after, other) {
            let k = choose|i: int| 0 <= i < after.len() && #[trigger] after[i].0 == other;
            if k != at {
                let b = if k < at || replaces {
                    k
                } else {
                    k - 1
                };
                assert(before[b] == after[k]);
                entries_are_unique(before, b);
                entries_are_unique(after, k);
            }
        }
        if has_key(before, other) && other != key {
            let k = choose|i: int| 0 <= i < before.len() && #[trigger] before[i].0 == other;
            let a = if k < at || replaces {
                k
            } else {
                k + 1
            };
            assert(after[a] == before[k]);
        }
    }
    assert(as_map(after) =~= as_map(before).insert(added.0, added.1));
}

} // verus!
