//! Things a hero can own: equipment, rings, consumables, and the chests that
//! carry them.

pub mod chest;
pub mod equipment;
pub mod key;
pub mod ring;
pub mod rolls;
pub mod tables;

use key::{ItemCounts, Key};
use ring::Ring;
use vstd::prelude::*;

verus! {

/// Something that lies in an inventory or in a chest. Potions and ethers come
/// in levels; a ring that is not worn is an item like any other.
#[derive(Debug, PartialEq, Eq, Structural)]
pub enum Item {
    /// Restores health.
    Potion(i32),
    /// Restores magic.
    Ether(i32),
    /// Cures ailments.
    Remedy,
    /// Lets the hero flee.
    Escape,
    /// Raises health for good.
    HealthStone,
    /// Raises magic for good.
    MagicStone,
    /// Raises strength for good.
    PowerStone,
    /// Raises speed for good.
    SpeedStone,
    /// Raises the hero's level.
    LevelStone,
    /// A ring that nobody wears.
    Ring(Ring),
}

impl Item {
    /// The kind under which this item is counted.
    pub open spec fn spec_key(&self) -> Key {
        match self {
            Item::Potion(_) => Key::Potion,
            Item::Ether(_) => Key::Ether,
            Item::Remedy => Key::Remedy,
            Item::Escape => Key::Escape,
            Item::HealthStone => Key::HealthStone,
            Item::MagicStone => Key::MagicStone,
            Item::PowerStone => Key::PowerStone,
            Item::SpeedStone => Key::SpeedStone,
            Item::LevelStone => Key::LevelStone,
            Item::Ring(ring) => Key::Ring(*ring),
        }
    }

    /// The kind under which this item is counted. It is never that of a
    /// sword or a shield.
    #[verifier::when_used_as_spec(spec_key)]
    pub fn key(&self) -> (key: Key)
        ensures
            key == self.spec_key(),
            key != Key::Sword,
            key != Key::Shield,
    {
        match self {
            Item::Potion(_) => Key::Potion,
            Item::Ether(_) => Key::Ether,
            Item::Remedy => Key::Remedy,
            Item::Escape => Key::Escape,
            Item::HealthStone => Key::HealthStone,
            Item::MagicStone => Key::MagicStone,
            Item::PowerStone => Key::PowerStone,
            Item::SpeedStone => Key::SpeedStone,
            Item::LevelStone => Key::LevelStone,
            Item::Ring(ring) => Key::Ring(*ring),
        }
    }
}

/// How many of `items` are of kind `key`.
pub open spec fn count_key(items: Seq<Item>, key: Key) -> nat
    decreases items.len(),
{
    if items.len() == 0 {
        0
    } else {
        let rest = count_key(items.drop_last(), key);
        if items.last().spec_key() == key {
            rest + 1
        } else {
            rest
        }
    }
}

/// The counts per kind of a list of items: a kind has a count exactly when an
/// item of it is in the list.
pub open spec fn counts_of(items: Seq<Item>) -> Map<Key, int> {
    Map::new(|key: Key| count_key(items, key) > 0, |key: Key| count_key(items, key) as int)
}

/// No list holds more items of one kind than it holds items.
pub proof fn lemma_count_bounded(items: Seq<Item>, key: Key)
    ensures
        count_key(items, key) <= items.len(),
    decreases items.len(),
{
    if items.len() > 0 {
        lemma_count_bounded(items.drop_last(), key);
    }
}

/// Counting over two lists laid end to end is counting over each and adding.
pub proof fn lemma_count_concat(first: Seq<Item>, second: Seq<Item>, key: Key)
    ensures
        count_key(first + second, key) == count_key(first, key) + count_key(second, key),
    decreases second.len(),
{
    if second.len() == 0 {
        assert(first + second =~= first);
    } else {
        assert((first + second).drop_last() =~= first + second.drop_last());
        assert((first + second).last() == second.last());
        lemma_count_concat(first, second.drop_last(), key);
    }
}

/// No item is counted as a sword or as a shield.
pub proof fn lemma_no_equipment_among_items(items: Seq<Item>)
    ensures
        count_key(items, Key::Sword) == 0,
        count_key(items, Key::Shield) == 0,
    decreases items.len(),
{
    if items.len() > 0 {
        lemma_no_equipment_among_items(items.drop_last());
    }
}

/// Counts a list of items per kind.
pub fn count_items(items: &Vec<Item>) -> (counts: ItemCounts)
    ensures
        counts.wf(),
        counts@ == counts_of(items@),
{
    let mut counts = ItemCounts::new();
    let mut i: usize = 0;
    assert(counts@ =~= counts_of(items@.take(0)));
    while i < items.len()
        invariant
            i <= items.len(),
            counts.wf(),
            counts@ == counts_of(items@.take(i as int)),
        decreases items.len() - i,
    {
        let key = items[i].key();
        proof {
            let seen = items@.take(i as int);
            let next = items@.take(i + 1);
            assert(next.drop_last() =~= seen);
            assert(next.last() == items@[i as int]);
            lemma_count_bounded(seen, key);
            assert(counts.count(key) == count_key(seen, key));
            assert(counts@.insert(key, counts.count(key) + 1) =~= counts_of(next));
        }
        counts.add_one(key);
        i += 1;
    }
    assert(items@.take(i as int) =~= items@);
    counts
}

} // verus!
