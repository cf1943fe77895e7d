//! The parameters of a query: keys with one value each.
//!
//! A [`Params`] keeps its entries in the order in which their keys first
//! came. Setting a key that is there replaces its value and leaves the entry
//! in its place.

use vstd::prelude::*;

verus! {

/// A key and its value, as texts.
pub type Pair = (Seq<char>, Seq<char>);

/// No key occurs twice.
pub open spec fn distinct_keys(entries: Seq<Pair>) -> bool {
    forall|i: int, j: int| 0 <= i < j < entries.len() ==> entries[i].0 != entries[j].0
}

/// Some entry has this key.
pub open spec fn has_key(entries: Seq<Pair>, key: Seq<char>) -> bool {
    exists|i: int| 0 <= i < entries.len() && (#[trigger] entries[i]).0 == key
}

/// The place of an entry with this key, where there is one.
pub open spec fn place_of(entries: Seq<Pair>, key: Seq<char>) -> int {
    choose|i: int| 0 <= i < entries.len() && (#[trigger] entries[i]).0 == key
}

/// The value that belongs to the key.
pub open spec fn lookup(entries: Seq<Pair>, key: Seq<char>) -> Option<Seq<char>> {
    if has_key(entries, key) {
        Some(entries[place_of(entries, key)].1)
    } else {
        None
    }
}

/// The entries after `key` was set to `value`: the key's entry holds the new
/// value where the key was there, and a new entry stands at the end where it
/// was not.
pub open spec fn put(entries: Seq<Pair>, key: Seq<char>, value: Seq<char>) -> Seq<Pair> {
    if has_key(entries, key) {
        entries.update(place_of(entries, key), (key, value))
    } else {
        entries.push((key, value))
    }
}

/// Setting a key keeps the keys distinct, makes the key's value the new one
/// and leaves the value of every other key as it was. The number of entries
/// grows by one where the key is new and stays where it is not.
pub proof fn lemma_put(entries: Seq<Pair>, key: Seq<char>, value: Seq<char>)
    requires
        distinct_keys(entries),
    ensures
        distinct_keys(put(entries, key, value)),
        lookup(put(entries, key, value), key) == Some(value),
        forall|other: Seq<char>|
            other != key ==> #[trigger] lookup(put(entries, key, value), other) == lookup(
                entries,
                other,
            ),
        put(entries, key, value).len() == if has_key(entries, key) {
            entries.len()
        } else {
            entries.len() + 1
        },
{
    let after = put(entries, key, value);
    let at = if has_key(entries, key) {
        place_of(entries, key)
    } else {
        entries.len() as int
    };
    assert(after[at] == (key, value));
    assert(has_key(after, key));
    assert(distinct_keys(after)) by {
        assert forall|i: int, j: int| 0 <= i < j < after.len() implies after[i].0 != after[j].0 by {
            if i != at && j != at {
                assert(after[i] == entries[i] && after[j] == entries[j]);
            } else if i == at && has_key(entries, key) {
                assert(after[j] == entries[j]);
            } else if j == at && has_key(entries, key) {
                assert(after[i] == entries[i]);
            } else if j == at {
                assert(after[i] == entries[i]);
            }
        }
    }
    assert(after[place_of(after, key)].0 == key);
    assert(place_of(after, key) == at);
    assert forall|other: Seq<char>| other != key implies #[trigger] lookup(after, other) == lookup(
        entries,
        other,
    ) by {
        if has_key(entries, other) {
            let k = place_of(entries, other);
            assert(after[k] == entries[k]);
            assert(has_key(after, other));
            let m = place_of(after, other);
            assert(m != at);
            assert(after[m] == entries[m]);
            assert(m == k);
        } else if has_key(after, other) {
            let m = place_of(after, other);
            assert(m != at);
            assert(after[m] == entries[m]);
        }
    }
}

/// The parameters of a query.
pub struct Params {
    entries: Vec<(String, String)>,
}

impl View for Params {
    type V = Seq<Pair>;

    closed spec fn view(&self) -> Seq<Pair> {
        Seq::new(self.entries@.len(), |i: int| (self.entries@[i].0@, self.entries@[i].1@))
    }
}

impl Params {
    /// What holds of every value of this type: no key occurs twice.
    #[verifier::type_invariant]
    pub open spec fn inv(self) -> bool {
        distinct_keys(self@)
    }

    /// Parameters without an entry.
    pub fn new() -> (params: Params)
        ensures
            params@ == Seq::<Pair>::empty(),
            distinct_keys(params@),
    {
        let params = Params { entries: Vec::new() };
        assert(params@ == Seq::<Pair>::empty());
        params
    }

    /// The number of entries. No two of them have the same key.
    pub fn len(&self) -> (len: usize)
        ensures
            len == self@.len(),
            distinct_keys(self@),
    {
        proof {
            use_type_invariant(self);
        }
        self.entries.len()
    }

    /// Whether there is no entry.
    pub fn is_empty(&self) -> (empty: bool)
        ensures
            empty == (self@.len() == 0),
    {
        self.entries.len() == 0
    }

    /// The place of the entry with this key.
    fn find(&self, key: &String) -> (found: Option<usize>)
        ensures
            found is Some == has_key(self@, key@),
            found matches Some(at) ==> at < self@.len() && self@[at as int].0 == key@,
    {
        let mut at: usize = 0;
        while at < self.entries.len()
            invariant
                at <= self.entries@.len(),
                forall|i: int| 0 <= i < at ==> (#[trigger] self@[i]).0 != key@,
            decreases self.entries@.len() - at,
        {
            if self.entries[at].0 == *key {
                assert(self@[at as int].0 == key@);
                return Some(at);
            }
            at += 1;
        }
        None
    }

    /// Sets `key` to `value`.
    pub fn insert(&mut self, key: &str, value: &str)
        ensures
            final(self)@ == put(old(self)@, key@, value@),
            distinct_keys(final(self)@),
    {
        proof {
            use_type_invariant(&*self);
            lemma_put(self@, key@, value@);
        }
        let key = key.to_owned();
        let value = value.to_owned();
        let ghost before = self@;
        let found = self.find(&key);
        let mut entries: Vec<(String, String)> = Vec::new();
        std::mem::swap(&mut self.entries, &mut entries);
        match found {
            Some(at) => {
                proof {
                    assert(place_of(before, key@) == at);
                }
                entries.set(at, (key, value));
            },
            None => {
                entries.push((key, value));
            },
        }
        proof {
            let after = Seq::new(entries@.len(), |i: int| (entries@[i].0@, entries@[i].1@));
            assert(after == put(before, key@, value@));
        }
        self.entries = entries;
    }

    /// The value of `key`, where it has one.
    pub fn get(&self, key: &str) -> (value: Option<String>)
        ensures
            value is Some == has_key(self@, key@),
            value matches Some(text) ==> lookup(self@, key@) == Some(text@),
    {
        proof {
            use_type_invariant(self);
        }
        let key = key.to_owned();
        match self.find(&key) {
            Some(at) => {
                proof {
                    assert(place_of(self@, key@) == at);
                }
                Some(self.entries[at].1.clone())
            },
            None => None,
        }
    }

    /// The key and the value of the entry at `index`, in the order in which
    /// the keys first came; nothing where there are not that many entries.
    pub fn entry(&self, index: usize) -> (pair: Option<(&String, &String)>)
        ensures
            pair is Some <==> index < self@.len(),
            pair matches Some((key, value)) ==> key@ == self@[index as int].0 && value@
                == self@[index as int].1,
    {
        if index < self.entries.len() {
            Some((&self.entries[index].0, &self.entries[index].1))
        } else {
            None
        }
    }
}

} // verus!
