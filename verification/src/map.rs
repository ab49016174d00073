//! A map from texts to values that keeps its keys in order.
use vstd::prelude::*;

use crate::text::{
    before, before_is_irreflexive, before_is_total, before_is_transitive, same_text, sorts_before,
};

verus! {

/// Whether the keys of `entries` are strictly ascending.
pub open spec fn ascending<V>(entries: Seq<(Seq<char>, V)>) -> bool {
    forall|i: int, j: int|
        0 <= i < j < entries.len() ==> before(#[trigger] entries[i].0, #[trigger] entries[j].0)
}

/// Whether `key` is the key of one of `entries`.
pub open spec fn has_key<V>(entries: Seq<(Seq<char>, V)>, key: Seq<char>) -> bool {
    exists|i: int| 0 <= i < entries.len() && (#[trigger] entries[i]).0 == key
}

/// The map that `entries` list.
pub open spec fn as_map<V>(entries: Seq<(Seq<char>, V)>) -> Map<Seq<char>, V> {
    Map::new(
        |key: Seq<char>| has_key(entries, key),
        |key: Seq<char>|
            entries[choose|i: int| 0 <= i < entries.len() && (#[trigger] entries[i]).0 == key].1,
    )
}

/// A map from texts to values, in the order of its keys.
#[derive(Debug, Clone)]
pub struct TextMap<V> {
    entries: Vec<(String, V)>,
}

impl<V> View for TextMap<V> {
    type V = Seq<(Seq<char>, V)>;

    /// The entries in the order of their keys.
    closed spec fn view(&self) -> Seq<(Seq<char>, V)> {
        listed(self.entries@)
    }
}

/// Stored entries with the contents of their keys.
spec fn listed<V>(stored: Seq<(String, V)>) -> Seq<(Seq<char>, V)> {
    stored.map_values(|e: (String, V)| (e.0@, e.1))
}

/// In a list with ascending keys an entry is found under its key, and no other entry is.
pub proof fn entry_is_mapped<V>(entries: Seq<(Seq<char>, V)>, i: int)
    requires
        ascending(entries),
        0 <= i < entries.len(),
    ensures
        as_map(entries).contains_key(entries[i].0),
        as_map(entries)[entries[i].0] == entries[i].1,
        forall|j: int| 0 <= j < entries.len() && j != i ==> (#[trigger] entries[j]).0 != entries[i].0,
{
    before_is_irreflexive(entries[i].0);
    assert(entries[i].0 == entries[i].0);
    assert(has_key(entries, entries[i].0));
    assert forall|j: int| 0 <= j < entries.len() && j != i implies (#[trigger] entries[j]).0
        != entries[i].0 by {
        if j < i {
            assert(before(entries[j].0, entries[i].0));
        } else {
            assert(before(entries[i].0, entries[j].0));
        }
    }
}

proof fn value_is_replaced<V>(entries: Seq<(Seq<char>, V)>, i: int, value: V)
    requires
        ascending(entries),
        0 <= i < entries.len(),
    ensures
        ascending(entries.update(i, (entries[i].0, value))),
        as_map(entries.update(i, (entries[i].0, value))) == as_map(entries).insert(
            entries[i].0,
            value,
        ),
{
    let after = entries.update(i, (entries[i].0, value));
    assert forall|j: int, k: int| 0 <= j < k < after.len() implies before(
        #[trigger] after[j].0,
        #[trigger] after[k].0,
    ) by {
        assert(after[j].0 == entries[j].0 && after[k].0 == entries[k].0);
    }
    let wanted = as_map(entries).insert(entries[i].0, value);
    assert forall|key: Seq<char>| has_key(after, key) == has_key(entries, key) by {
        if has_key(entries, key) {
            let j = choose|j: int| 0 <= j < entries.len() && (#[trigger] entries[j]).0 == key;
            assert(after[j].0 == key);
        }
        if has_key(after, key) {
            let j = choose|j: int| 0 <= j < after.len() && (#[trigger] after[j]).0 == key;
            assert(entries[j].0 == key);
        }
    }
    assert(after[i].0 == entries[i].0);
    assert(has_key(after, entries[i].0));
    assert forall|key: Seq<char>| has_key(after, key) implies as_map(after)[key]
        == #[trigger] wanted[key] by {
        let j = choose|j: int| 0 <= j < after.len() && (#[trigger] after[j]).0 == key;
        entry_is_mapped(after, j);
        entry_is_mapped(entries, j);
        entry_is_mapped(entries, i);
        assert(after[j].0 == entries[j].0);
    }
    assert(as_map(after) =~= wanted);
}

proof fn entry_is_added<V>(entries: Seq<(Seq<char>, V)>, i: int, key: Seq<char>, value: V)
    requires
        ascending(entries),
        0 <= i <= entries.len(),
        forall|j: int| 0 <= j < i ==> before((#[trigger] entries[j]).0, key),
        forall|j: int| i <= j < entries.len() ==> before(key, (#[trigger] entries[j]).0),
    ensures
        ascending(entries.insert(i, (key, value))),
        as_map(entries.insert(i, (key, value))) == as_map(entries).insert(key, value),
{
    let after = entries.insert(i, (key, value));
    let back = |j: int|
        if j < i {
            j
        } else {
            j - 1
        };
    assert forall|j: int| 0 <= j < after.len() && j != i implies #[trigger] after[j]
        == entries[back(j)] by {}
    assert forall|j: int, k: int| 0 <= j < k < after.len() implies before(
        #[trigger] after[j].0,
        #[trigger] after[k].0,
    ) by {
        if j != i && k != i {
            assert(before(entries[back(j)].0, entries[back(k)].0));
        }
    }
    let wanted = as_map(entries).insert(key, value);
    assert(after[i].0 == key);
    assert forall|k: Seq<char>| #[trigger] has_key(after, k) == (has_key(entries, k) || k == key) by {
        if has_key(entries, k) {
            let j = choose|j: int| 0 <= j < entries.len() && (#[trigger] entries[j]).0 == k;
            if j < i {
                assert(after[j].0 == k);
            } else {
                assert(after[j + 1].0 == k);
            }
        }
        if has_key(after, k) && k != key {
            let j = choose|j: int| 0 <= j < after.len() && (#[trigger] after[j]).0 == k;
            assert(entries[back(j)].0 == k);
        }
    }
    assert forall|k: Seq<char>| has_key(after, k) implies as_map(after)[k]
        == #[trigger] wanted[k] by {
        let j = choose|j: int| 0 <= j < after.len() && (#[trigger] after[j]).0 == k;
        entry_is_mapped(after, j);
        if j != i {
            entry_is_mapped(entries, back(j));
            entry_is_mapped(after, i);
        }
    }
    assert(as_map(after) =~= wanted);
}

proof fn entry_is_removed<V>(entries: Seq<(Seq<char>, V)>, i: int)
    requires
        ascending(entries),
        0 <= i < entries.len(),
    ensures
        ascending(entries.remove(i)),
        as_map(entries.remove(i)) == as_map(entries).remove(entries[i].0),
{
    let after = entries.remove(i);
    let key = entries[i].0;
    let onward = |j: int|
        if j < i {
            j
        } else {
            j + 1
        };
    assert forall|j: int| 0 <= j < after.len() implies #[trigger] after[j]
        == entries[onward(j)] by {}
    assert forall|j: int, k: int| 0 <= j < k < after.len() implies before(
        #[trigger] after[j].0,
        #[trigger] after[k].0,
    ) by {
        assert(before(entries[onward(j)].0, entries[onward(k)].0));
    }
    entry_is_mapped(entries, i);
    let wanted = as_map(entries).remove(key);
    assert forall|k: Seq<char>| #[trigger] has_key(after, k) == (has_key(entries, k) && k != key) by {
        if has_key(entries, k) && k != key {
            let j = choose|j: int| 0 <= j < entries.len() && (#[trigger] entries[j]).0 == k;
            if j < i {
                assert(after[j].0 == k);
            } else {
                assert(after[j - 1].0 == k);
            }
        }
        if has_key(after, k) {
            let j = choose|j: int| 0 <= j < after.len() && (#[trigger] after[j]).0 == k;
            assert(entries[onward(j)].0 == k);
        }
    }
    assert forall|k: Seq<char>| has_key(after, k) implies as_map(after)[k]
        == #[trigger] wanted[k] by {
        let j = choose|j: int| 0 <= j < after.len() && (#[trigger] after[j]).0 == k;
        entry_is_mapped(after, j);
        entry_is_mapped(entries, onward(j));
    }
    assert(as_map(after) =~= wanted);
}

impl<V> TextMap<V> {
    /// The keys are strictly ascending, so none occurs twice.
    pub open spec fn wf(&self) -> bool {
        ascending(self@)
    }

    /// The mapping from keys to values.
    pub open spec fn map(&self) -> Map<Seq<char>, V> {
        as_map(self@)
    }

    pub fn new() -> (r: Self)
        ensures
            r.wf(),
            r@ == Seq::<(Seq<char>, V)>::empty(),
            r.map() == Map::<Seq<char>, V>::empty(),
    {
        let r = TextMap { entries: Vec::new() };
        proof {
            assert(r@ =~= Seq::<(Seq<char>, V)>::empty());
            assert(r.map() =~= Map::<Seq<char>, V>::empty());
        }
        r
    }

    pub fn len(&self) -> (n: usize)
        ensures
            n == self@.len(),
    {
        self.entries.len()
    }

    /// The key of the entry at `i`.
    pub fn key_at(&self, i: usize) -> (key: &String)
        requires
            i < self@.len(),
        ensures
            key@ == self@[i as int].0,
    {
        &self.entries[i].0
    }

    /// The value of the entry at `i`.
    pub fn value_at(&self, i: usize) -> (value: &V)
        requires
            i < self@.len(),
        ensures
            *value == self@[i as int].1,
    {
        &self.entries[i].1
    }

    /// The place of `key`: where it stands, or where it would be inserted.
    fn place(&self, key: &str) -> (r: (usize, bool))
        requires
            self.wf(),
        ensures
            r.0 <= self@.len(),
            r.1 == self.map().contains_key(key@),
            r.1 ==> r.0 < self@.len() && self@[r.0 as int].0 == key@,
            !r.1 ==> forall|j: int| 0 <= j < r.0 ==> before((#[trigger] self@[j]).0, key@),
            !r.1 ==> forall|j: int| r.0 <= j < self@.len() ==> before(key@, (#[trigger] self@[j]).0),
    {
        let mut i: usize = 0;
        while i < self.entries.len() && sorts_before(self.entries[i].0.as_str(), key)
            invariant
                i <= self.entries@.len(),
                forall|j: int| 0 <= j < i ==> before((#[trigger] self@[j]).0, key@),
            decreases self.entries@.len() - i,
        {
            i += 1;
        }
        let found = i < self.entries.len() && same_text(self.entries[i].0.as_str(), key);
        proof {
            if i < self@.len() {
                assert(self@[i as int].0 == self.entries@[i as int].0@);
            }
            if found {
                entry_is_mapped(self@, i as int);
            } else {
                assert forall|j: int| i <= j < self@.len() implies before(
                    key@,
                    (#[trigger] self@[j]).0,
                ) by {
                    before_is_total(self@[i as int].0, key@);
                    if j > i {
                        assert(before(self@[i as int].0, self@[j].0));
                        before_is_transitive(key@, self@[i as int].0, self@[j].0);
                    }
                }
                before_is_irreflexive(key@);
                assert(!has_key(self@, key@));
            }
        }
        (i, found)
    }

    pub fn contains_key(&self, key: &str) -> (r: bool)
        requires
            self.wf(),
        ensures
            r == self.map().contains_key(key@),
    {
        self.place(key).1
    }

    pub fn get(&self, key: &str) -> (r: Option<&V>)
        requires
            self.wf(),
        ensures
            match r {
                Some(value) => self.map().contains_key(key@) && *value == self.map()[key@],
                None => !self.map().contains_key(key@),
            },
    {
        let (i, found) = self.place(key);
        if found {
            proof {
                entry_is_mapped(self@, i as int);
            }
            Some(&self.entries[i].1)
        } else {
            None
        }
    }

    /// The value of `key`, to be changed in place.
    pub fn get_mut(&mut self, key: &str) -> (r: Option<&mut V>)
        requires
            old(self).wf(),
        ensures
            final(self).wf(),
            match r {
                Some(value) => {
                    &&& old(self).map().contains_key(key@)
                    &&& *value == old(self).map()[key@]
                    &&& final(self).map() == old(self).map().insert(key@, *final(value))
                },
                None => !old(self).map().contains_key(key@) && *final(self) == *old(self),
            },
    {
        let (i, found) = self.place(key);
        if found {
            let ghost entries = self@;
            let ghost stored = self.entries@;
            proof {
                entry_is_mapped(entries, i as int);
                assert forall|v: V|
                    #![trigger stored.update(i as int, (stored[i as int].0, v))]
                    {
                        let after = listed(stored.update(i as int, (stored[i as int].0, v)));
                        ascending(after) && as_map(after) == as_map(entries).insert(key@, v)
                    } by {
                    let after = listed(stored.update(i as int, (stored[i as int].0, v)));
                    assert(after =~= entries.update(i as int, (key@, v)));
                    value_is_replaced(entries, i as int, v);
                }
            }
            Some(&mut self.entries[i].1)
        } else {
            None
        }
    }

    /// Sets the value of `key`, whether or not it had one.
    pub fn insert(&mut self, key: String, value: V)
        requires
            old(self).wf(),
        ensures
            final(self).wf(),
            final(self).map() == old(self).map().insert(key@, value),
    {
        let (i, found) = self.place(key.as_str());
        let ghost entries = self@;
        let ghost text = key@;
        if found {
            self.entries[i] = (key, value);
            proof {
                assert(self@ =~= entries.update(i as int, (text, value)));
                value_is_replaced(entries, i as int, value);
            }
        } else {
            self.entries.insert(i, (key, value));
            proof {
                assert(self@ =~= entries.insert(i as int, (text, value)));
                entry_is_added(entries, i as int, text, value);
            }
        }
    }

    /// Takes out the entry of `key`.
    pub fn remove(&mut self, key: &str) -> (r: Option<V>)
        requires
            old(self).wf(),
        ensures
            final(self).wf(),
            final(self).map() == old(self).map().remove(key@),
            match r {
                Some(value) => old(self).map().contains_key(key@) && value == old(
                    self,
                ).map()[key@],
                None => !old(self).map().contains_key(key@),
            },
    {
        let (i, found) = self.place(key);
        let ghost entries = self@;
        if found {
            let (_, value) = self.entries.remove(i);
            proof {
                entry_is_mapped(entries, i as int);
                assert(self@ =~= entries.remove(i as int));
                entry_is_removed(entries, i as int);
            }
            Some(value)
        } else {
            proof {
                assert(self.map() =~= self.map().remove(key@));
            }
            None
        }
    }
}

/// A map has the keys of its entries, no others, and each with the value of its entry.
pub proof fn maps_hold_their_entries<V>(entries: Seq<(Seq<char>, V)>, key: Seq<char>, value: V)
    requires
        forall|i: int, j: int|
            0 <= i < j < entries.len() ==> before(#[trigger] entries[i].0, #[trigger] entries[j].0),
    ensures
        as_map(entries).contains_key(key) <==> exists|i: int|
            0 <= i < entries.len() && (#[trigger] entries[i]).0 == key,
        as_map(entries).contains_key(key) && as_map(entries)[key] == value <==> exists|i: int|
            0 <= i < entries.len() && #[trigger] entries[i] == (key, value),
{
    if exists|i: int| 0 <= i < entries.len() && #[trigger] entries[i] == (key, value) {
        let i = choose|i: int| 0 <= i < entries.len() && #[trigger] entries[i] == (key, value);
        entry_is_mapped(entries, i);
    }
    if as_map(entries).contains_key(key) {
        let i = choose|i: int| 0 <= i < entries.len() && (#[trigger] entries[i]).0 == key;
        entry_is_mapped(entries, i);
        assert(entries[i] == (key, as_map(entries)[key]));
    }
}

} // verus!
