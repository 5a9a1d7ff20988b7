//! The dice of one search, and what they turn up.

use crate::game::tier;
use crate::game::Game;
use crate::item::chest::ChestView;
use crate::item::equipment::Category;
use crate::item::equipment::Equipment;
use crate::item::ring::lemma_remove_keeps_distinct;
use crate::item::ring::Ring;
use crate::item::tables::equipment_table;
use crate::item::tables::gold_reward;
use crate::item::tables::item_table;
use crate::item::tables::random_equipment;
use crate::item::tables::random_item;
use crate::item::tables::LEVEL_STEP;
use crate::item::Item;
use crate::randomizer::chance_roll;
use crate::randomizer::choose_index;
use rand::rngs::StdRng;
use vstd::prelude::*;

verus! {

/// The base chance, in hundredths, that gold is found.
pub const GOLD_CHANCE: u32 = 10;

/// The base chance, in hundredths, that a piece of equipment is found.
pub const EQUIPMENT_CHANCE: u32 = 5;

/// The base chance, in hundredths, that a ring is found.
pub const RING_CHANCE: u32 = 2;

/// The base chance, in hundredths, that one attempt at an item succeeds.
pub const ITEM_CHANCE: u32 = 15;

/// How many attempts at an item one search makes.
pub const ITEM_ATTEMPTS: usize = 3;

/// How many attempts at an item a search makes: twice as many when every
/// chance is doubled.
pub open spec fn item_attempts(doubled: bool) -> nat {
    if doubled {
        (2 * ITEM_ATTEMPTS) as nat
    } else {
        ITEM_ATTEMPTS as nat
    }
}

/// Whether a roll that may be tried again succeeded: the first try hit, or
/// the chance is doubled and the second try hit. These are two tries, each
/// with the plain chance; the chance itself is not raised.
pub open spec fn struck(first: bool, doubled: bool, again: bool) -> bool {
    first || (doubled && again)
}

/// Decides [`struck`].
pub fn has_struck(first: bool, doubled: bool, again: bool) -> (hit: bool)
    ensures
        hit == struck(first, doubled, again),
{
    first || (doubled && again)
}

/// The items that a run of attempts found: one for each attempt that found
/// one, in the order of the attempts.
pub open spec fn found_items(attempts: Seq<Option<Item>>) -> Seq<Item>
    decreases attempts.len(),
{
    if attempts.len() == 0 {
        Seq::empty()
    } else {
        let first = match attempts.first() {
            Some(item) => seq![item],
            None => Seq::empty(),
        };
        first + found_items(attempts.drop_first())
    }
}

/// A run of attempts finds no more items than there were attempts, and each
/// found item is that of one of the attempts.
pub proof fn lemma_found_items(attempts: Seq<Option<Item>>)
    ensures
        found_items(attempts).len() <= attempts.len(),
        forall|i: int|
            0 <= i < found_items(attempts).len() ==> attempts.contains(
                Some(#[trigger] found_items(attempts)[i]),
            ),
    decreases attempts.len(),
{
    if attempts.len() > 0 {
        let rest = attempts.drop_first();
        lemma_found_items(rest);
        let first_len: int = if attempts.first() is Some {
            1
        } else {
            0
        };
        assert forall|i: int| 0 <= i < found_items(attempts).len() implies attempts.contains(
            Some(#[trigger] found_items(attempts)[i]),
        ) by {
            if i < first_len {
                assert(attempts[0] == Some(found_items(attempts)[i]));
            } else {
                let item = found_items(rest)[i - first_len];
                assert(found_items(attempts)[i] == item);
                let at = choose|at: int| 0 <= at < rest.len() && rest[at] == Some(item);
                assert(attempts[at + 1] == Some(item));
            }
        }
    }
}

/// Every die of one search, as it fell: the tries at gold, at equipment and
/// at a ring, what was drawn for the equipment and for the ring, and what
/// each attempt at an item found.
#[derive(Debug)]
pub struct Dice {
    /// The first try at gold.
    pub gold: bool,
    /// The second try at gold.
    pub gold_again: bool,
    /// The first try at equipment.
    pub equipment: bool,
    /// The second try at equipment.
    pub equipment_again: bool,
    /// The first try at a ring.
    pub ring: bool,
    /// The second try at a ring.
    pub ring_again: bool,
    /// The piece of equipment that was drawn, if one was drawn.
    pub piece: Option<Equipment>,
    /// The place in the pool of the ring that was drawn, if one was drawn.
    pub place: Option<usize>,
    /// For each attempt at an item, the item it found, if it found one.
    pub attempts: Vec<Option<Item>>,
}

impl Dice {
    /// Whether the dice of a search in the given game can fall like this.
    /// There are three attempts at an item, and six for a hero who wears the
    /// ring of chests. A piece was drawn if the roll for equipment succeeded,
    /// and it is one of the distance's table. A place was drawn if the roll
    /// for a ring succeeded and a ring was left, and it is a place of the
    /// pool. Each found item is one of the table of the hero's rounded level.
    pub open spec fn fits(&self, game: Game) -> bool {
        let doubled = game.player.wears(Ring::Chest);
        &&& self.attempts@.len() == item_attempts(doubled)
        &&& struck(self.equipment, doubled, self.equipment_again) ==> self.piece is Some
        &&& self.piece matches Some(piece) ==> equipment_table(game.distance).contains(piece)
        &&& struck(self.ring, doubled, self.ring_again) && game.ring_pool@.len() > 0
            ==> self.place is Some
        &&& self.place matches Some(index) ==> index < game.ring_pool@.len()
        &&& forall|i: int|
            0 <= i < self.attempts@.len() ==> (#[trigger] self.attempts@[i] matches Some(item)
                ==> item_table(tier(game.player.level as int) as i32).contains(item))
    }

    /// Throws the dice of one search. Gold, equipment and ring each get a
    /// try of their own, and each attempt at an item another; a hero who
    /// wears the ring of chests gets a second try where the first one failed,
    /// and twice the attempts. A piece is drawn only if the roll for
    /// equipment succeeded, and a place only if the roll for a ring did.
    pub fn throw(game: &Game, rng: &mut StdRng) -> (dice: Dice)
        requires
            game.wf(),
            game.distance <= i32::MAX - LEVEL_STEP,
        ensures
            dice.fits(*game),
    {
        let distance = game.distance;
        let doubled = game.player.double_chests();
        let gold = chance_roll(GOLD_CHANCE, distance, rng);
        let equipment = chance_roll(EQUIPMENT_CHANCE, distance, rng);
        let ring = chance_roll(RING_CHANCE, distance, rng);
        let mut gold_again = false;
        let mut equipment_again = false;
        let mut ring_again = false;
        let mut count: usize = ITEM_ATTEMPTS;
        if doubled {
            gold_again = !gold && chance_roll(GOLD_CHANCE, distance, rng);
            equipment_again = !equipment && chance_roll(EQUIPMENT_CHANCE, distance, rng);
            ring_again = !ring && chance_roll(RING_CHANCE, distance, rng);
            count = count * 2;
        }
        let piece = if has_struck(equipment, doubled, equipment_again) {
            Some(random_equipment(distance, rng))
        } else {
            None
        };
        let place = if has_struck(ring, doubled, ring_again) {
            choose_index(rng, game.ring_pool.len())
        } else {
            None
        };
        let level = game.player.rounded_level();
        let mut attempts: Vec<Option<Item>> = Vec::new();
        while attempts.len() < count
            invariant
                attempts@.len() <= count,
                forall|i: int|
                    0 <= i < attempts@.len() ==> (#[trigger] attempts@[i] matches Some(item)
                        ==> item_table(level).contains(item)),
            decreases count - attempts@.len(),
        {
            let attempt = if chance_roll(ITEM_CHANCE, distance, rng) {
                Some(random_item(level, rng))
            } else {
                None
            };
            attempts.push(attempt);
        }
        Dice {
            gold,
            gold_again,
            equipment,
            equipment_again,
            ring,
            ring_again,
            piece,
            place,
            attempts,
        }
    }
}

/// What the dice say in one search: whether gold is found, which piece of
/// equipment if any, which of the remaining rings if any, and which items.
#[derive(Debug)]
pub struct Rolls {
    /// Whether the roll for gold succeeded.
    pub gold: bool,
    /// The piece that was drawn, if the roll for equipment succeeded.
    pub equipment: Option<Equipment>,
    /// The place in the pool of the ring that was drawn, if the roll for a
    /// ring succeeded and a ring was left.
    pub ring: Option<usize>,
    /// The items that the successful attempts drew, in their order.
    pub items: Vec<Item>,
}

/// How the dice are read. Gold is found if the roll for gold succeeded, on
/// the first try or, for a hero who wears the ring of chests, on the second.
/// The drawn piece is found if the roll for equipment succeeded in the same
/// way, and the drawn ring if the roll for a ring did. Every attempt that
/// found an item adds that item.
pub open spec fn rolled(game: Game, dice: Dice, rolls: Rolls) -> bool {
    let doubled = game.player.wears(Ring::Chest);
    &&& rolls.gold == struck(dice.gold, doubled, dice.gold_again)
    &&& rolls.equipment == if struck(dice.equipment, doubled, dice.equipment_again) {
        dice.piece
    } else {
        None
    }
    &&& rolls.ring == if struck(dice.ring, doubled, dice.ring_again) {
        dice.place
    } else {
        None
    }
    &&& rolls.items@ == found_items(dice.attempts@)
}

/// Dice that can fall in a game are read as rolls that are possible in it.
pub proof fn lemma_rolled_is_possible(game: Game, dice: Dice, rolls: Rolls)
    requires
        dice.fits(game),
        rolled(game, dice, rolls),
    ensures
        rolls.possible(game),
{
    lemma_found_items(dice.attempts@);
    assert forall|i: int| 0 <= i < rolls.items@.len() implies item_table(
        tier(game.player.level as int) as i32,
    ).contains(#[trigger] rolls.items@[i]) by {
        let item = rolls.items@[i];
        let at = choose|at: int| 0 <= at < dice.attempts@.len() && dice.attempts@[at] == Some(item);
        assert(dice.attempts@[at] matches Some(found) && found == item);
    }
}

impl Rolls {
    /// Whether a search in the given game can roll this: the piece is one of
    /// the distance's table, the ring's place is one of the pool, and there
    /// are no more items than attempts, each from the table of the hero's
    /// rounded level.
    pub open spec fn possible(&self, game: Game) -> bool {
        &&& self.equipment matches Some(piece) ==> equipment_table(game.distance).contains(piece)
        &&& self.ring matches Some(index) ==> index < game.ring_pool@.len()
        &&& self.items@.len() <= item_attempts(game.player.wears(Ring::Chest))
        &&& forall|i: int|
            0 <= i < self.items@.len() ==> item_table(tier(game.player.level as int) as i32).contains(
                #[trigger] self.items@[i],
            )
    }

    /// Reads the dice: what they say is [`rolled`].
    pub fn from_dice(game: &Game, dice: Dice) -> (rolls: Rolls)
        ensures
            rolled(*game, dice, rolls),
            dice.fits(*game) ==> rolls.possible(*game),
    {
        let doubled = game.player.double_chests();
        let gold = has_struck(dice.gold, doubled, dice.gold_again);
        let equipment = if has_struck(dice.equipment, doubled, dice.equipment_again) {
            dice.piece
        } else {
            None
        };
        let ring = if has_struck(dice.ring, doubled, dice.ring_again) {
            dice.place
        } else {
            None
        };
        let mut attempts = dice.attempts;
        let mut items: Vec<Item> = Vec::new();
        assert(items@ + found_items(attempts@) =~= found_items(dice.attempts@));
        while attempts.len() > 0
            invariant
                items@ + found_items(attempts@) == found_items(dice.attempts@),
            decreases attempts@.len(),
        {
            let ghost before = attempts@;
            let ghost so_far = items@;
            let attempt = attempts.remove(0);
            if let Some(item) = attempt {
                items.push(item);
            }
            proof {
                assert(attempts@ =~= before.drop_first());
                assert(attempt == before.first());
                assert(items@ + found_items(attempts@) =~= so_far + found_items(before));
            }
        }
        assert(items@ =~= items@ + found_items(attempts@));
        let rolls = Rolls { gold, equipment, ring, items };
        proof {
            if dice.fits(*game) {
                lemma_rolled_is_possible(*game, dice, rolls);
            }
        }
        rolls
    }

    /// Rolls for one search: throws the dice ([`Dice::throw`]) and reads them
    /// ([`Rolls::from_dice`]).
    pub fn draw(game: &Game, rng: &mut StdRng) -> (rolls: Rolls)
        requires
            game.wf(),
            game.distance <= i32::MAX - LEVEL_STEP,
        ensures
            rolls.possible(*game),
            exists|dice: Dice| #[trigger] dice.fits(*game) && rolled(*game, dice, rolls),
    {
        let dice = Dice::throw(game, rng);
        let ghost thrown = dice;
        let rolls = Rolls::from_dice(game, dice);
        assert(thrown.fits(*game) && rolled(*game, thrown, rolls));
        rolls
    }
}

/// The ring that a search takes from a pool: the one at the rolled place.
pub open spec fn ring_found(pool: Seq<Ring>, place: Option<usize>) -> Option<Ring> {
    match place {
        Some(index) => if index < pool.len() {
            Some(pool[index as int])
        } else {
            None
        },
        None => None,
    }
}

/// The pool that a search leaves: the pool without the ring it took.
pub open spec fn pool_left(pool: Seq<Ring>, place: Option<usize>) -> Seq<Ring> {
    match place {
        Some(index) => if index < pool.len() {
            pool.remove(index as int)
        } else {
            pool
        },
        None => pool,
    }
}

/// The slot of one category after a piece has been found: the piece, if it
/// is of that category.
pub open spec fn slot_of(found: Option<Equipment>, category: Category) -> Option<Equipment> {
    match found {
        Some(piece) => if piece.category == category {
            Some(piece)
        } else {
            None
        },
        None => None,
    }
}

/// What lies in the chest that a search with the given rolls turns up: the
/// gold reward if gold was rolled, the piece in the slot of its category, and
/// the ring, if there is one, before the items.
pub open spec fn loot(game: Game, rolls: Rolls) -> ChestView {
    ChestView {
        items: match ring_found(game.ring_pool@, rolls.ring) {
            Some(ring) => seq![Item::Ring(ring)] + rolls.items@,
            None => rolls.items@,
        },
        sword: slot_of(rolls.equipment, Category::Sword),
        shield: slot_of(rolls.equipment, Category::Shield),
        gold: if rolls.gold {
            gold_reward(game.player.level as int, game.distance as int)
        } else {
            0
        },
    }
}

/// What every search turns up, whatever the dice say: gold is the reward or
/// none; there is a sword or a shield or neither, never both, and it is one of
/// the distance's table; there is at most one ring, it comes first and it was
/// in the pool; and every other item is one of the table of the hero's
/// rounded level, with no more of them than there were attempts.
pub proof fn lemma_loot_shape(game: Game, rolls: Rolls)
    requires
        game.wf(),
        rolls.possible(game),
    ensures
        loot(game, rolls).wf(),
        loot(game, rolls).gold == 0 || loot(game, rolls).gold == gold_reward(
            game.player.level as int,
            game.distance as int,
        ),
        loot(game, rolls).gold > 0 <==> rolls.gold,
        !(loot(game, rolls).sword is Some && loot(game, rolls).shield is Some),
        loot(game, rolls).sword matches Some(piece) ==> equipment_table(game.distance).contains(piece),
        loot(game, rolls).shield matches Some(piece) ==> equipment_table(game.distance).contains(
            piece,
        ),
        loot(game, rolls).items.len() <= item_attempts(game.player.wears(Ring::Chest)) + 1,
        forall|i: int|
            0 <= i < loot(game, rolls).items.len() ==> {
                let item = #[trigger] loot(game, rolls).items[i];
                ||| item_table(tier(game.player.level as int) as i32).contains(item)
                ||| (i == 0 && ring_found(game.ring_pool@, rolls.ring) is Some && item == Item::Ring(
                    ring_found(game.ring_pool@, rolls.ring)->0,
                ) && game.ring_pool@.contains(ring_found(game.ring_pool@, rolls.ring)->0))
            },
        pool_left(game.ring_pool@, rolls.ring).no_duplicates(),
        ring_found(game.ring_pool@, rolls.ring) matches Some(ring) ==> !pool_left(
            game.ring_pool@,
            rolls.ring,
        ).contains(ring),
{
    let found = loot(game, rolls);
    match ring_found(game.ring_pool@, rolls.ring) {
        Some(ring) => {
            let index = rolls.ring->0 as int;
            lemma_remove_keeps_distinct(game.ring_pool@, index);
            assert(game.ring_pool@[index] == ring);
            assert forall|i: int| 0 <= i < found.items.len() implies {
                let item = #[trigger] found.items[i];
                ||| item_table(tier(game.player.level as int) as i32).contains(item)
                ||| (i == 0 && item == Item::Ring(ring) && game.ring_pool@.contains(ring))
            } by {
                if i > 0 {
                    assert(found.items[i] == rolls.items@[i - 1]);
                }
            }
        },
        None => {},
    }
}

} // verus!
