//! Lists of entries under text keys, read as maps.
//!
//! The stores of this crate keep their entries in the order of arrival, and an
//! entry that arrives later under a key stands before an earlier one. Here are
//! the definitions and lemmas that they share, and the list itself.

use vstd::prelude::*;
use vstd::string::*;

verus! {

/// The value most recently entered under `key`, if there is one.
pub open spec fn latest<V>(entries: Seq<(Seq<char>, V)>, key: Seq<char>) -> Option<V>
    decreases entries.len(),
{
    if entries.len() == 0 {
        None
    } else if entries.last().0 == key {
        Some(entries.last().1)
    } else {
        latest(entries.drop_last(), key)
    }
}

/// The entries as a map from each key to the value most recently entered
/// under it.
pub open spec fn as_map<V>(entries: Seq<(Seq<char>, V)>) -> Map<Seq<char>, V> {
    Map::new(
        |key: Seq<char>| latest(entries, key) is Some,
        |key: Seq<char>| latest(entries, key)->0,
    )
}

/// `at` is the place of the entry that `latest` finds under `key`.
pub open spec fn is_latest_at<V>(entries: Seq<(Seq<char>, V)>, key: Seq<char>, at: int) -> bool {
    &&& 0 <= at < entries.len()
    &&& entries[at].0 == key
    &&& forall|j: int| at < j < entries.len() ==> entries[j].0 != key
}

/// No entry stands under `key`.
pub open spec fn is_absent<V>(entries: Seq<(Seq<char>, V)>, key: Seq<char>) -> bool {
    forall|j: int| 0 <= j < entries.len() ==> entries[j].0 != key
}

/// What `latest` finds is the entry at the last place that holds the key.
pub proof fn lemma_latest_at<V>(entries: Seq<(Seq<char>, V)>, key: Seq<char>, at: int)
    requires
        is_latest_at(entries, key, at),
    ensures
        latest(entries, key) == Some(entries[at].1),
    decreases entries.len(),
{
    if at < entries.len() - 1 {
        lemma_latest_at(entries.drop_last(), key, at);
    }
}

/// Under a key that no entry holds, `latest` finds nothing.
pub proof fn lemma_latest_absent<V>(entries: Seq<(Seq<char>, V)>, key: Seq<char>)
    requires
        is_absent(entries, key),
    ensures
        latest(entries, key) is None,
    decreases entries.len(),
{
    if entries.len() > 0 {
        lemma_latest_absent(entries.drop_last(), key);
    }
}

/// What was entered last under a key is what is found under it; what stands
/// under another key is not disturbed.
pub proof fn lemma_latest_after_push<V>(
    entries: Seq<(Seq<char>, V)>,
    key: Seq<char>,
    value: V,
    other: Seq<char>,
)
    ensures
        latest(entries.push((key, value)), key) == Some(value),
        other != key ==> latest(entries.push((key, value)), other) == latest(entries, other),
{
    let after = entries.push((key, value));
    assert(after.drop_last() =~= entries);
    assert(after.last() == (key, value));
}

/// Replacing the value of the entry that `latest` finds under a key changes
/// what is found under that key and nothing else.
pub proof fn lemma_latest_after_replace<V>(
    entries: Seq<(Seq<char>, V)>,
    key: Seq<char>,
    at: int,
    value: V,
    other: Seq<char>,
)
    requires
        is_latest_at(entries, key, at),
    ensures
        latest(entries.update(at, (key, value)), key) == Some(value),
        other != key ==> latest(entries.update(at, (key, value)), other) == latest(
            entries,
            other,
        ),
    decreases entries.len(),
{
    let after = entries.update(at, (key, value));
    if at == entries.len() - 1 {
        assert(after.drop_last() =~= entries.drop_last());
    } else {
        assert(after.drop_last() =~= entries.drop_last().update(at, (key, value)));
        assert(after.last() == entries.last());
        lemma_latest_after_replace(entries.drop_last(), key, at, value, other);
    }
}

/// Entering a value at the end is an insertion into the map.
pub proof fn lemma_as_map_push<V>(entries: Seq<(Seq<char>, V)>, key: Seq<char>, value: V)
    ensures
        as_map(entries.push((key, value))) == as_map(entries).insert(key, value),
{
    let after = entries.push((key, value));
    assert forall|k: Seq<char>| #[trigger]
        latest(after, k) == (if k == key {
            Some(value)
        } else {
            latest(entries, k)
        }) by {
        lemma_latest_after_push(entries, key, value, k);
    }
    assert(as_map(after) =~= as_map(entries).insert(key, value));
}

/// Replacing the value of the entry that `latest` finds is an insertion into
/// the map.
pub proof fn lemma_as_map_replace<V>(
    entries: Seq<(Seq<char>, V)>,
    key: Seq<char>,
    at: int,
    value: V,
)
    requires
        is_latest_at(entries, key, at),
    ensures
        as_map(entries.update(at, (key, value))) == as_map(entries).insert(key, value),
{
    let after = entries.update(at, (key, value));
    assert forall|k: Seq<char>| #[trigger]
        latest(after, k) == (if k == key {
            Some(value)
        } else {
            latest(entries, k)
        }) by {
        lemma_latest_after_replace(entries, key, at, value, k);
    }
    assert(as_map(after) =~= as_map(entries).insert(key, value));
}

/// The map of no entries is empty.
pub proof fn lemma_as_map_empty<V>()
    ensures
        as_map(Seq::<(Seq<char>, V)>::empty()) == Map::<Seq<char>, V>::empty(),
{
    assert(as_map(Seq::<(Seq<char>, V)>::empty()) =~= Map::<Seq<char>, V>::empty());
}

/// One entry of a keyed list.
#[derive(Debug)]
struct Entry<V> {
    key: String,
    value: V,
}

/// Values under text keys, one value to a key. A key is found by its exact
/// text.
#[derive(Debug)]
pub struct KeyedList<V> {
    entries: Vec<Entry<V>>,
}

impl<V> KeyedList<V> {
    /// The entries in the order in which their keys were first entered.
    spec fn listing(&self) -> Seq<(Seq<char>, V)> {
        self.entries@.map_values(|e: Entry<V>| (e.key@, e.value))
    }

    /// The list as a map from key to value.
    pub closed spec fn view(&self) -> Map<Seq<char>, V> {
        as_map(self.listing())
    }

    /// A list without entries.
    pub fn new() -> (list: Self)
        ensures
            list@ == Map::<Seq<char>, V>::empty(),
    {
        let list = KeyedList { entries: Vec::new() };
        proof {
            assert(list.listing() =~= Seq::<(Seq<char>, V)>::empty());
            lemma_as_map_empty::<V>();
        }
        list
    }

    /// Where the entry under `key` stands, if there is one.
    fn position(&self, key: &String) -> (found: Option<usize>)
        ensures
            match found {
                Some(at) => {
                    &&& is_latest_at(self.listing(), key@, at as int)
                    &&& self@.contains_key(key@)
                    &&& self@[key@] == self.entries@[at as int].value
                    &&& self.entries@[at as int].key@ == key@
                },
                None => is_absent(self.listing(), key@) && !self@.contains_key(key@),
            },
    {
        let mut i: usize = self.entries.len();
        while i > 0
            invariant
                i <= self.entries.len(),
                forall|j: int| i <= j < self.entries.len() ==> self.listing()[j].0 != key@,
            decreases i,
        {
            i = i - 1;
            if self.entries[i].key == *key {
                proof {
                    lemma_latest_at(self.listing(), key@, i as int);
                }
                return Some(i);
            }
        }
        proof {
            lemma_latest_absent(self.listing(), key@);
        }
        None
    }

    /// Whether a value stands under exactly the key `key`.
    pub fn contains(&self, key: &str) -> (found: bool)
        ensures
            found == self@.contains_key(key@),
    {
        let key = String::from_str(key);
        self.position(&key).is_some()
    }

    /// The value under exactly the key `key`.
    pub fn get(&self, key: &str) -> (found: Option<&V>)
        ensures
            match found {
                Some(value) => self@.contains_key(key@) && *value == self@[key@],
                None => !self@.contains_key(key@),
            },
    {
        let key = String::from_str(key);
        match self.position(&key) {
            Some(at) => Some(&self.entries[at].value),
            None => None,
        }
    }

    /// The value under exactly the key `key`, to be changed in place. What is
    /// done to it is done to that entry of the list, and to no other.
    pub fn get_mut(&mut self, key: &str) -> (found: Option<&mut V>)
        ensures
            match found {
                Some(value) => {
                    &&& old(self)@.contains_key(key@)
                    &&& *value == old(self)@[key@]
                    &&& final(self)@ == old(self)@.insert(key@, *final(value))
                },
                None => !old(self)@.contains_key(key@) && final(self)@ == old(self)@,
            },
    {
        let text = String::from_str(key);
        match self.position(&text) {
            Some(at) => {
                proof {
                    let before = self.entries@;
                    let listing = self.listing();
                    assert forall|entry: Entry<V>| entry.key == before[at as int].key implies as_map(
                        (#[trigger] before.update(at as int, entry)).map_values(
                            |e: Entry<V>| (e.key@, e.value),
                        ),
                    ) == self@.insert(key@, entry.value) by {
                        lemma_as_map_replace(listing, key@, at as int, entry.value);
                        assert(before.update(at as int, entry).map_values(
                            |e: Entry<V>| (e.key@, e.value),
                        ) =~= listing.update(at as int, (key@, entry.value)));
                    }
                }
                Some(&mut self.entries[at].value)
            },
            None => None,
        }
    }

    /// Enters `value` under `key`, in place of what stood there.
    ///
    /// A value that takes the place of another is always entered. For a new
    /// key the list has to grow; where no memory can be had for that, the
    /// list stays as it was and the value is handed back.
    pub fn insert(&mut self, key: &str, value: V) -> (r: Result<(), V>)
        ensures
            match r {
                Ok(()) => final(self)@ == old(self)@.insert(key@, value),
                Err(back) => {
                    &&& back == value
                    &&& final(self)@ == old(self)@
                    &&& !old(self)@.contains_key(key@)
                },
            },
    {
        let text = String::from_str(key);
        match self.position(&text) {
            Some(at) => {
                proof {
                    lemma_as_map_replace(self.listing(), key@, at as int, value);
                }
                self.entries.set(at, Entry { key: text, value });
                assert(self.listing() =~= old(self).listing().update(at as int, (key@, value)));
                Ok(())
            },
            None => {
                if self.entries.try_reserve(1).is_err() {
                    return Err(value);
                }
                proof {
                    lemma_as_map_push(self.listing(), key@, value);
                }
                self.entries.push(Entry { key: text, value });
                assert(self.listing() =~= old(self).listing().push((key@, value)));
                Ok(())
            },
        }
    }
}

} // verus!
