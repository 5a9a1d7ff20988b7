//! The hero and the state of one game, as far as loot touches them.

use crate::item::count_items;
use crate::item::counts_of;
use crate::item::equipment::Category;
use crate::item::equipment::Equipment;
use crate::item::key::ItemCounts;
use crate::item::ring::Ring;
use crate::item::ring::RingPool;
use crate::item::Item;
use vstd::prelude::*;

verus! {

/// A level rounded down to a multiple of five, and at least one. Found
/// equipment and found potions come in these levels.
pub open spec fn tier(level: int) -> int {
    let floored = (level / 5) * 5;
    if floored > 1 {
        floored
    } else {
        1
    }
}

/// Computes [`tier`].
pub fn tier_of(level: i32) -> (rounded: i32)
    ensures
        rounded == tier(level as int),
        1 <= rounded,
        level >= 1 ==> rounded <= level,
{
    if level < 5 {
        1
    } else {
        (level / 5) * 5
    }
}

/// Whether a slot for one category of equipment holds nothing of the other.
pub open spec fn slot_holds(slot: Option<Equipment>, category: Category) -> bool {
    match slot {
        Some(piece) => piece.category == category,
        None => true,
    }
}

/// Decides [`slot_holds`].
pub fn slot_fits(slot: &Option<Equipment>, category: Category) -> (fits: bool)
    ensures
        fits == slot_holds(*slot, category),
{
    match slot {
        Some(piece) => piece.category() == category,
        None => true,
    }
}

/// The hero: a level, a sword hand, a shield hand, and a ring on each hand.
#[derive(Debug)]
pub struct Player {
    pub level: i32,
    pub sword: Option<Equipment>,
    pub shield: Option<Equipment>,
    pub left_ring: Option<Ring>,
    pub right_ring: Option<Ring>,
}

impl Player {
    /// The level is at least one, and each hand holds what belongs in it.
    pub open spec fn wf(&self) -> bool {
        &&& self.level >= 1
        &&& slot_holds(self.sword, Category::Sword)
        &&& slot_holds(self.shield, Category::Shield)
    }

    /// Whether the hero wears a ring of the given kind on either hand.
    pub open spec fn wears(&self, ring: Ring) -> bool {
        self.left_ring == Some(ring) || self.right_ring == Some(ring)
    }

    /// Decides [`Player::wf`].
    pub fn is_well_formed(&self) -> (ok: bool)
        ensures
            ok == self.wf(),
    {
        self.level >= 1 && slot_fits(&self.sword, Category::Sword) && slot_fits(
            &self.shield,
            Category::Shield,
        )
    }

    /// A hero of level one with empty hands.
    pub fn new() -> (player: Player)
        ensures
            player.wf(),
            player.level == 1,
            player.sword is None,
            player.shield is None,
            player.left_ring is None,
            player.right_ring is None,
    {
        Player { level: 1, sword: None, shield: None, left_ring: None, right_ring: None }
    }

    /// Decides [`Player::wears`].
    fn has_ring(&self, ring: Ring) -> (worn: bool)
        ensures
            worn == self.wears(ring),
    {
        let left = match self.left_ring {
            Some(worn) => worn == ring,
            None => false,
        };
        let right = match self.right_ring {
            Some(worn) => worn == ring,
            None => false,
        };
        left || right
    }

    /// Whether enemies are evaded, which also keeps the hero from finding
    /// any loot: so it is while the ring of evasion is worn.
    pub fn enemies_evaded(&self) -> (evaded: bool)
        ensures
            evaded == self.wears(Ring::Evade),
    {
        self.has_ring(Ring::Evade)
    }

    /// Whether every chance of loot is tried twice: so it is while the ring
    /// of chests is worn.
    pub fn double_chests(&self) -> (doubled: bool)
        ensures
            doubled == self.wears(Ring::Chest),
    {
        self.has_ring(Ring::Chest)
    }

    /// The hero's level as a [`tier`].
    pub fn rounded_level(&self) -> (rounded: i32)
        ensures
            rounded == tier(self.level as int),
    {
        tier_of(self.level)
    }
}

/// One game: the hero, how far from home the hero stands, the purse, the
/// inventory, and the rings that are still to be found.
#[derive(Debug)]
pub struct Game {
    pub player: Player,
    pub distance: i32,
    pub gold: i32,
    pub inventory: Vec<Item>,
    pub ring_pool: RingPool,
}

impl Game {
    /// The hero is well formed, distance and gold are not negative, and the
    /// pool holds no ring twice.
    pub open spec fn wf(&self) -> bool {
        &&& self.player.wf()
        &&& self.distance >= 0
        &&& self.gold >= 0
        &&& self.ring_pool.wf()
    }

    /// Decides [`Game::wf`].
    pub fn is_well_formed(&self) -> (ok: bool)
        ensures
            ok == self.wf(),
    {
        self.player.is_well_formed() && self.distance >= 0 && self.gold >= 0
            && self.ring_pool.is_well_formed()
    }

    /// A game at its start: a fresh hero at home, with no gold and no items,
    /// and every ring still to be found.
    pub fn new() -> (game: Game)
        ensures
            game.wf(),
            game.player.level == 1,
            game.player.sword is None,
            game.player.shield is None,
            game.player.left_ring is None,
            game.player.right_ring is None,
            game.distance == 0,
            game.gold == 0,
            game.inventory@.len() == 0,
            game.ring_pool@ == crate::item::ring::all_rings(),
    {
        Game {
            player: Player::new(),
            distance: 0,
            gold: 0,
            inventory: Vec::new(),
            ring_pool: RingPool::new(),
        }
    }

    /// Puts an item into the inventory.
    pub fn add_item(&mut self, item: Item)
        ensures
            final(self).inventory@ == old(self).inventory@.push(item),
            final(self).player == old(self).player,
            final(self).distance == old(self).distance,
            final(self).gold == old(self).gold,
            final(self).ring_pool == old(self).ring_pool,
    {
        self.inventory.push(item);
    }

    /// How many items of each kind the inventory holds.
    pub fn inventory(&self) -> (counts: ItemCounts)
        ensures
            counts.wf(),
            counts@ == counts_of(self.inventory@),
    {
        count_items(&self.inventory)
    }
}

} // verus!
