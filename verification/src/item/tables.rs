//! What can be found: how much gold, which pieces of equipment, which items,
//! and how likely each of them is.

use crate::game::tier;
use crate::game::tier_of;
use crate::item::equipment::Category;
use crate::item::equipment::Equipment;
use crate::item::Item;
use crate::randomizer::choose_weighted;
use crate::randomizer::lemma_total_weight_push;
use crate::randomizer::total_weight;
use rand::rngs::StdRng;
use vstd::prelude::*;

verus! {

/// The gold found for each level of the hero and each step from home.
pub const GOLD_PER_LEVEL: i32 = 50;

/// How far the stronger pieces of found equipment lie above the weaker.
pub const LEVEL_STEP: i32 = 5;

/// The level of the sword that is found once in a blue moon.
pub const TOP_LEVEL: i32 = 100;

/// The gold that a hero of the given level finds at the given distance.
pub open spec fn gold_reward(level: int, distance: int) -> int {
    GOLD_PER_LEVEL * (level + distance)
}

/// The gold found grows with every level of the hero.
pub proof fn lemma_gold_grows_with_level(level: int, higher: int, distance: int)
    requires
        level < higher,
    ensures
        gold_reward(level, distance) < gold_reward(higher, distance),
{
}

/// The gold found grows with every step from home.
pub proof fn lemma_gold_grows_with_distance(level: int, distance: int, farther: int)
    requires
        distance < farther,
    ensures
        gold_reward(level, distance) < gold_reward(level, farther),
{
}

/// Computes [`gold_reward`].
pub fn gold_found(level: i32, distance: i32) -> (gold: i32)
    requires
        i32::MIN <= gold_reward(level as int, distance as int) <= i32::MAX,
    ensures
        gold == gold_reward(level as int, distance as int),
{
    let sum: i64 = level as i64 + distance as i64;
    let gold: i64 = GOLD_PER_LEVEL as i64 * sum;
    gold as i32
}

/// The weights of the pieces of equipment that can be found, in the order of
/// [`equipment_table`].
pub open spec fn equipment_weights() -> Seq<u32> {
    seq![100, 80, 30, 20, 1]
}

/// The pieces of equipment that can be found at a distance: a sword and a
/// shield of the distance's tier, a sword and a shield one step above it, and
/// the sword of the top level.
pub open spec fn equipment_table(distance: i32) -> Seq<Equipment> {
    let base = tier(distance as int);
    seq![
        Equipment { category: Category::Sword, level: base as i32 },
        Equipment { category: Category::Shield, level: base as i32 },
        Equipment { category: Category::Sword, level: (base + LEVEL_STEP) as i32 },
        Equipment { category: Category::Shield, level: (base + LEVEL_STEP) as i32 },
        Equipment { category: Category::Sword, level: TOP_LEVEL },
    ]
}

/// The weights of the items that can be found, in the order of
/// [`item_table`]: potions are common, stones are rare.
pub open spec fn item_weights() -> Seq<u32> {
    seq![150, 10, 10, 50, 5, 5, 5, 5, 1]
}

/// The items that can be found by a hero whose rounded level is `level`.
pub open spec fn item_table(level: i32) -> Seq<Item> {
    seq![
        Item::Potion(level),
        Item::Remedy,
        Item::Escape,
        Item::Ether(level),
        Item::HealthStone,
        Item::MagicStone,
        Item::PowerStone,
        Item::SpeedStone,
        Item::LevelStone,
    ]
}

/// Appends a weight to a list of weights, whose sum grows by it.
fn add_weight(weights: &mut Vec<u32>, weight: u32)
    ensures
        final(weights)@ == old(weights)@.push(weight),
        total_weight(final(weights)@) == total_weight(old(weights)@) + weight,
{
    proof {
        lemma_total_weight_push(weights@, weight);
    }
    weights.push(weight);
}

/// The weights of the equipment table, as a vector.
fn equipment_weights_vec() -> (weights: Vec<u32>)
    ensures
        weights@ == equipment_weights(),
        total_weight(weights@) == 231,
{
    let mut weights: Vec<u32> = Vec::new();
    add_weight(&mut weights, 100);
    add_weight(&mut weights, 80);
    add_weight(&mut weights, 30);
    add_weight(&mut weights, 20);
    add_weight(&mut weights, 1);
    assert(weights@ =~= equipment_weights());
    weights
}

/// The weights of the item table, as a vector.
fn item_weights_vec() -> (weights: Vec<u32>)
    ensures
        weights@ == item_weights(),
        total_weight(weights@) == 241,
{
    let mut weights: Vec<u32> = Vec::new();
    add_weight(&mut weights, 150);
    add_weight(&mut weights, 10);
    add_weight(&mut weights, 10);
    add_weight(&mut weights, 50);
    add_weight(&mut weights, 5);
    add_weight(&mut weights, 5);
    add_weight(&mut weights, 5);
    add_weight(&mut weights, 5);
    add_weight(&mut weights, 1);
    assert(weights@ =~= item_weights());
    weights
}

/// The piece at `index` of [`equipment_table`].
pub fn equipment_choice(distance: i32, index: usize) -> (piece: Equipment)
    requires
        index < equipment_table(distance).len(),
        distance <= i32::MAX - LEVEL_STEP,
    ensures
        piece == equipment_table(distance)[index as int],
{
    let base = tier_of(distance);
    if index == 0 {
        Equipment::sword(base)
    } else if index == 1 {
        Equipment::shield(base)
    } else if index == 2 {
        Equipment::sword(base + LEVEL_STEP)
    } else if index == 3 {
        Equipment::shield(base + LEVEL_STEP)
    } else {
        Equipment::sword(TOP_LEVEL)
    }
}

/// The item at `index` of [`item_table`].
pub fn item_choice(level: i32, index: usize) -> (item: Item)
    requires
        index < item_table(level).len(),
    ensures
        item == item_table(level)[index as int],
{
    if index == 0 {
        Item::Potion(level)
    } else if index == 1 {
        Item::Remedy
    } else if index == 2 {
        Item::Escape
    } else if index == 3 {
        Item::Ether(level)
    } else if index == 4 {
        Item::HealthStone
    } else if index == 5 {
        Item::MagicStone
    } else if index == 6 {
        Item::PowerStone
    } else if index == 7 {
        Item::SpeedStone
    } else {
        Item::LevelStone
    }
}

/// Draws one piece of equipment from [`equipment_table`] by its weights. It
/// is one piece, a sword or a shield, never both.
pub fn random_equipment(distance: i32, rng: &mut StdRng) -> (piece: Equipment)
    requires
        distance <= i32::MAX - LEVEL_STEP,
    ensures
        equipment_table(distance).contains(piece),
{
    let weights = equipment_weights_vec();
    let index = choose_weighted(&weights, rng).unwrap();
    equipment_choice(distance, index)
}

/// Draws one item from [`item_table`] by its weights.
pub fn random_item(level: i32, rng: &mut StdRng) -> (item: Item)
    ensures
        item_table(level).contains(item),
{
    let weights = item_weights_vec();
    let index = choose_weighted(&weights, rng).unwrap();
    item_choice(level, index)
}

} // verus!
