//! The identity of a kind of thing, and counts kept per identity.

use super::ring::Ring;
use vstd::prelude::*;

verus! {

/// What kind of thing something is. Things of one kind stack in an inventory
/// and are counted together.
#[derive(Clone, Copy, Debug, PartialEq, Eq, Hash, Structural)]
pub enum Key {
    Potion,
    Ether,
    Remedy,
    Escape,
    HealthStone,
    MagicStone,
    PowerStone,
    SpeedStone,
    LevelStone,
    Sword,
    Shield,
    Ring(Ring),
}

/// Whether some entry of `entries` is filed under `key`.
pub open spec fn has_key(entries: Seq<(Key, usize)>, key: Key) -> bool {
    exists|i: int| 0 <= i < entries.len() && (#[trigger] entries[i]).0 == key
}

/// The position of an entry filed under `key`, if there is one.
pub open spec fn position_of(entries: Seq<(Key, usize)>, key: Key) -> int {
    choose|i: int| 0 <= i < entries.len() && (#[trigger] entries[i]).0 == key
}

/// No two entries are filed under the same key.
pub open spec fn distinct_keys(entries: Seq<(Key, usize)>) -> bool {
    forall|i: int, j: int|
        0 <= i < entries.len() && 0 <= j < entries.len() && i != j ==> (#[trigger] entries[i]).0 != (
        #[trigger] entries[j]).0
}

/// The map that a list of entries with distinct keys stands for.
pub open spec fn entries_map(entries: Seq<(Key, usize)>) -> Map<Key, int> {
    Map::new(|key: Key| has_key(entries, key), |key: Key| entries[position_of(entries, key)].1 as int)
}

/// With distinct keys, each entry is what the map holds under its key.
pub proof fn lemma_entry_in_map(entries: Seq<(Key, usize)>, i: int)
    requires
        distinct_keys(entries),
        0 <= i < entries.len(),
    ensures
        entries_map(entries).contains_key(entries[i].0),
        entries_map(entries)[entries[i].0] == entries[i].1,
{
    let key = entries[i].0;
    assert(has_key(entries, key));
    let p = position_of(entries, key);
    assert(0 <= p < entries.len() && entries[p].0 == key);
    assert(p == i);
}

/// With distinct keys, the map holds as many keys as there are entries.
pub proof fn lemma_as_many_keys_as_entries(entries: Seq<(Key, usize)>)
    requires
        distinct_keys(entries),
    ensures
        entries_map(entries).dom().finite(),
        entries_map(entries).dom().len() == entries.len(),
{
    let keys = entries.map_values(|entry: (Key, usize)| entry.0);
    assert(keys.no_duplicates()) by {
        assert forall|i: int, j: int| 0 <= i < keys.len() && 0 <= j < keys.len() && i != j implies keys[i]
            != keys[j] by {
            assert(keys[i] == entries[i].0);
            assert(keys[j] == entries[j].0);
        }
    }
    keys.unique_seq_to_set();
    vstd::seq_lib::seq_to_set_is_finite(keys);
    assert(entries_map(entries).dom() =~= keys.to_set()) by {
        assert forall|key: Key| entries_map(entries).dom().contains(key) <==> keys.to_set().contains(
            key,
        ) by {
            if has_key(entries, key) {
                let p = position_of(entries, key);
                assert(keys[p] == key);
            }
            if keys.contains(key) {
                let p = choose|p: int| 0 <= p < keys.len() && keys[p] == key;
                assert(entries[p].0 == key);
            }
        }
    }
}

/// Setting one entry, or appending one under a key that is not kept yet,
/// sets the count under that key and leaves the rest of the map as it is.
/// Here `after` is `before` with `(key, count)` at place `at`: in place of
/// the entry that was kept under `key`, or behind the last entry.
proof fn lemma_entry_set(
    before: Seq<(Key, usize)>,
    after: Seq<(Key, usize)>,
    key: Key,
    count: usize,
    at: int,
)
    requires
        distinct_keys(before),
        0 <= at < after.len(),
        before.len() <= after.len(),
        after[at] == (key, count),
        forall|p: int|
            0 <= p < after.len() && p != at ==> p < before.len() && #[trigger] after[p] == before[p],
        at < before.len() ==> before[at].0 == key,
        at >= before.len() ==> !has_key(before, key),
    ensures
        distinct_keys(after),
        entries_map(after) == entries_map(before).insert(key, count as int),
{
    assert forall|a: int, b: int|
        0 <= a < after.len() && 0 <= b < after.len() && a != b implies (#[trigger] after[a]).0 != (
    #[trigger] after[b]).0 by {
        if a != at {
            assert(after[a] == before[a]);
        }
        if b != at {
            assert(after[b] == before[b]);
        }
    }
    assert forall|k: Key| has_key(after, k) == (has_key(before, k) || k == key) by {
        if has_key(after, k) {
            let p = position_of(after, k);
            if p != at {
                assert(before[p].0 == k);
            }
        }
        if has_key(before, k) {
            let p = position_of(before, k);
            if p != at {
                assert(after[p].0 == k);
            }
        }
        if k == key {
            assert(after[at].0 == k);
        }
    }
    assert forall|k: Key| has_key(after, k) implies #[trigger] entries_map(after)[k] == entries_map(
        before,
    ).insert(key, count as int)[k] by {
        let p = position_of(after, k);
        lemma_entry_in_map(after, p);
        if k != key {
            assert(after[p] == before[p]);
            lemma_entry_in_map(before, p);
        } else {
            assert(p == at);
        }
    }
    assert(entries_map(after) =~= entries_map(before).insert(key, count as int));
}

/// How many things of each kind: a finite map from keys to counts.
#[derive(Debug)]
pub struct ItemCounts {
    entries: Vec<(Key, usize)>,
}

impl View for ItemCounts {
    type V = Map<Key, int>;

    /// The count kept under each key that has one.
    closed spec fn view(&self) -> Map<Key, int> {
        entries_map(self.entries@)
    }
}

impl ItemCounts {
    /// Each key is kept once.
    pub closed spec fn wf(&self) -> bool {
        distinct_keys(self.entries@)
    }

    /// The count under `key`, or zero where there is none.
    pub open spec fn count(&self, key: Key) -> int {
        if self@.contains_key(key) {
            self@[key]
        } else {
            0
        }
    }

    /// No counts at all.
    pub fn new() -> (counts: ItemCounts)
        ensures
            counts.wf(),
            counts@ == Map::<Key, int>::empty(),
    {
        let counts = ItemCounts { entries: Vec::new() };
        assert(counts@ =~= Map::<Key, int>::empty());
        counts
    }

    /// Where `key` is kept among the entries, if it is.
    fn find(&self, key: &Key) -> (at: Option<usize>)
        requires
            self.wf(),
        ensures
            match at {
                Some(i) => i < self.entries@.len() && self.entries@[i as int].0 == *key,
                None => !has_key(self.entries@, *key),
            },
    {
        let mut i: usize = 0;
        while i < self.entries.len()
            invariant
                i <= self.entries.len(),
                forall|j: int| 0 <= j < i ==> (#[trigger] self.entries@[j]).0 != *key,
            decreases self.entries.len() - i,
        {
            if self.entries[i].0 == *key {
                return Some(i);
            }
            i += 1;
        }
        None
    }

    /// The count kept under `key`.
    pub fn get(&self, key: &Key) -> (count: Option<usize>)
        requires
            self.wf(),
        ensures
            match count {
                Some(n) => self@.contains_key(*key) && self@[*key] == n,
                None => !self@.contains_key(*key),
            },
    {
        match self.find(key) {
            Some(i) => {
                proof {
                    lemma_entry_in_map(self.entries@, i as int);
                }
                Some(self.entries[i].1)
            },
            None => None,
        }
    }

    /// Whether a count is kept under `key`.
    pub fn contains_key(&self, key: &Key) -> (kept: bool)
        requires
            self.wf(),
        ensures
            kept == self@.contains_key(*key),
    {
        self.find(key).is_some()
    }

    /// Whether no count is kept at all.
    pub fn is_empty(&self) -> (nothing: bool)
        requires
            self.wf(),
        ensures
            nothing == (self@ == Map::<Key, int>::empty()),
    {
        let nothing = self.entries.len() == 0;
        proof {
            if nothing {
                assert(self@ =~= Map::<Key, int>::empty());
            } else {
                lemma_entry_in_map(self.entries@, 0);
            }
        }
        nothing
    }

    /// How many keys have a count.
    pub fn len(&self) -> (n: usize)
        requires
            self.wf(),
        ensures
            self@.dom().finite(),
            n == self@.dom().len(),
    {
        proof {
            lemma_as_many_keys_as_entries(self.entries@);
        }
        self.entries.len()
    }

    /// Sets the count under `key`, replacing any count kept there.
    pub fn insert(&mut self, key: Key, count: usize)
        requires
            old(self).wf(),
        ensures
            final(self).wf(),
            final(self)@ == old(self)@.insert(key, count as int),
    {
        let ghost before = self.entries@;
        match self.find(&key) {
            Some(i) => {
                self.entries[i] = (key, count);
                proof {
                    lemma_entry_set(before, self.entries@, key, count, i as int);
                }
            },
            None => {
                self.entries.push((key, count));
                proof {
                    lemma_entry_set(before, self.entries@, key, count, before.len() as int);
                }
            },
        }
    }

    /// Counts one more thing under `key`.
    pub fn add_one(&mut self, key: Key)
        requires
            old(self).wf(),
            old(self).count(key) < usize::MAX,
        ensures
            final(self).wf(),
            final(self)@ == old(self)@.insert(key, old(self).count(key) + 1),
    {
        match self.get(&key) {
            Some(n) => self.insert(key, n + 1),
            None => self.insert(key, 1),
        }
    }

    /// The keys with their counts, each key once, in no particular order.
    pub fn entries(&self) -> (list: Vec<(Key, usize)>)
        requires
            self.wf(),
        ensures
            distinct_keys(list@),
            entries_map(list@) == self@,
    {
        let mut list: Vec<(Key, usize)> = Vec::new();
        let mut i: usize = 0;
        while i < self.entries.len()
            invariant
                i <= self.entries.len(),
                list@ == self.entries@.take(i as int),
            decreases self.entries.len() - i,
        {
            list.push(self.entries[i]);
            assert(self.entries@.take(i + 1) =~= self.entries@.take(i as int).push(
                self.entries@[i as int],
            ));
            i += 1;
        }
        assert(self.entries@.take(i as int) =~= self.entries@);
        list
    }
}

} // verus!
