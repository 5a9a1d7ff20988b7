//! Chests: bags of loot that a hero finds, leaves behind, merges and picks up.

use crate::game::slot_fits;
use crate::game::slot_holds;
use crate::game::Game;
use crate::game::Player;
use crate::item::count_items;
use crate::item::count_key;
use crate::item::counts_of;
use crate::item::equipment::best_of;
use crate::item::equipment::maybe_upgrade;
use crate::item::equipment::replaces;
use crate::item::equipment::Category;
use crate::item::equipment::Equipment;
use crate::item::key::ItemCounts;
use crate::item::key::Key;
use crate::item::lemma_count_concat;
use crate::item::lemma_no_equipment_among_items;
use crate::item::ring::drawn;
use crate::item::ring::Ring;
use crate::item::rolls::loot;
use crate::item::rolls::pool_left;
use crate::item::rolls::rolled;
use crate::item::rolls::Dice;
use crate::item::rolls::Rolls;
use crate::item::tables::gold_found;
use crate::item::tables::gold_reward;
use crate::item::tables::GOLD_PER_LEVEL;
use crate::item::Item;
use rand::rngs::StdRng;
use vstd::prelude::*;

verus! {

/// What a chest holds, as plain mathematics: the items in the order they were
/// put in, at most one sword, at most one shield, and an amount of gold.
pub struct ChestView {
    pub items: Seq<Item>,
    pub sword: Option<Equipment>,
    pub shield: Option<Equipment>,
    pub gold: int,
}

impl ChestView {
    /// A chest with nothing in it.
    pub open spec fn empty() -> ChestView {
        ChestView { items: Seq::empty(), sword: None, shield: None, gold: 0 }
    }

    /// Whether there is nothing in the chest: no item, no equipment, no gold.
    pub open spec fn is_empty(self) -> bool {
        &&& self.items.len() == 0
        &&& self.sword is None
        &&& self.shield is None
        &&& self.gold == 0
    }

    /// Gold is not negative, and each slot holds what belongs in it.
    pub open spec fn wf(self) -> bool {
        &&& self.gold >= 0
        &&& slot_holds(self.sword, Category::Sword)
        &&& slot_holds(self.shield, Category::Shield)
    }

    /// This chest after `other` has been poured into it: the gold is added
    /// up, the other's items follow this one's, and of each category the
    /// other's piece replaces this one's only if it is strictly stronger.
    pub open spec fn merged(self, other: ChestView) -> ChestView {
        ChestView {
            items: self.items + other.items,
            sword: best_of(self.sword, other.sword),
            shield: best_of(self.shield, other.shield),
            gold: self.gold + other.gold,
        }
    }
}

/// A bag of loot: items, at most one sword, at most one shield, and gold.
#[derive(Debug)]
pub struct Chest {
    items: Vec<Item>,
    sword: Option<Equipment>,
    shield: Option<Equipment>,
    gold: i32,
}

impl View for Chest {
    type V = ChestView;

    closed spec fn view(&self) -> ChestView {
        ChestView { items: self.items@, sword: self.sword, shield: self.shield, gold: self.gold as int }
    }
}

/// The rings a hero wears, left hand first, as the items they are once they
/// have been taken off.
pub open spec fn worn_rings(player: Player) -> Seq<Item> {
    let left = match player.left_ring {
        Some(ring) => seq![Item::Ring(ring)],
        None => Seq::empty(),
    };
    let right = match player.right_ring {
        Some(ring) => seq![Item::Ring(ring)],
        None => Seq::empty(),
    };
    left + right
}

/// The counts that a pick-up reports: those of the chest's items, and a one
/// under the key of each piece of equipment that replaced the hero's.
pub open spec fn picked_counts(chest: ChestView, player: Player) -> Map<Key, int> {
    let items = counts_of(chest.items);
    let with_sword = if replaces(player.sword, chest.sword) {
        items.insert(Key::Sword, 1)
    } else {
        items
    };
    if replaces(player.shield, chest.shield) {
        with_sword.insert(Key::Shield, 1)
    } else {
        with_sword
    }
}

/// What a pick-up does to the game: the chest's gold is added to the purse,
/// its items follow the inventory's, each hand holds the better of what it
/// held and what the chest offered, and nothing else changes.
pub open spec fn handed_over(before: Game, chest: ChestView, after: Game) -> bool {
    &&& after.gold == before.gold + chest.gold
    &&& after.inventory@ == before.inventory@ + chest.items
    &&& after.player.sword == best_of(before.player.sword, chest.sword)
    &&& after.player.shield == best_of(before.player.shield, chest.shield)
    &&& after.player.level == before.player.level
    &&& after.player.left_ring == before.player.left_ring
    &&& after.player.right_ring == before.player.right_ring
    &&& after.distance == before.distance
    &&& after.ring_pool == before.ring_pool
}

/// A pick-up neither makes nor loses anything: after it the purse holds what
/// purse and chest held together, and of every kind the inventory holds as
/// many items as inventory and chest held together.
pub proof fn lemma_pick_up_conserves(before: Game, chest: ChestView, after: Game)
    requires
        handed_over(before, chest, after),
    ensures
        after.gold == before.gold + chest.gold,
        after.inventory@.len() == before.inventory@.len() + chest.items.len(),
        forall|key: Key|
            count_key(after.inventory@, key) == count_key(before.inventory@, key)
                + #[trigger] count_key(chest.items, key),
        after.inventory@.to_multiset() == before.inventory@.to_multiset().add(
            chest.items.to_multiset(),
        ),
{
    assert forall|key: Key|
        count_key(after.inventory@, key) == count_key(before.inventory@, key)
            + #[trigger] count_key(chest.items, key) by {
        lemma_count_concat(before.inventory@, chest.items, key);
    }
    vstd::seq_lib::lemma_multiset_commutative(before.inventory@, chest.items);
}

/// What a pick-up reports under each key: a one under the key of swords, or
/// of shields, exactly when the chest's piece replaced the hero's; and under
/// every other key the number of the chest's items of that kind, where there
/// are any.
pub proof fn lemma_picked_counts(chest: ChestView, player: Player, key: Key)
    ensures
        key == Key::Sword ==> (picked_counts(chest, player).contains_key(key) <==> replaces(
            player.sword,
            chest.sword,
        )),
        key == Key::Shield ==> (picked_counts(chest, player).contains_key(key) <==> replaces(
            player.shield,
            chest.shield,
        )),
        (key == Key::Sword || key == Key::Shield) && picked_counts(chest, player).contains_key(key)
            ==> picked_counts(chest, player)[key] == 1,
        key != Key::Sword && key != Key::Shield ==> (picked_counts(chest, player).contains_key(key)
            <==> count_key(chest.items, key) > 0),
        key != Key::Sword && key != Key::Shield && picked_counts(chest, player).contains_key(key)
            ==> picked_counts(chest, player)[key] == count_key(chest.items, key),
{
    lemma_no_equipment_among_items(chest.items);
}

impl Chest {
    /// Gold is not negative, the sword slot holds no shield and the shield
    /// slot no sword.
    pub open spec fn wf(&self) -> bool {
        self@.wf()
    }

    /// A chest of the given contents. There is none if the gold is negative
    /// or a piece of equipment sits in the wrong slot.
    pub fn new(items: Vec<Item>, sword: Option<Equipment>, shield: Option<Equipment>, gold: i32) -> (made:
        Option<Chest>)
        ensures
            made is Some <==> (ChestView { items: items@, sword, shield, gold: gold as int }).wf(),
            made matches Some(chest) ==> chest@ == (ChestView {
                items: items@,
                sword,
                shield,
                gold: gold as int,
            }),
    {
        if gold >= 0 && slot_fits(&sword, Category::Sword) && slot_fits(&shield, Category::Shield) {
            Some(Chest { items, sword, shield, gold })
        } else {
            None
        }
    }

    /// The gold in the chest.
    pub fn gold(&self) -> (gold: i32)
        ensures
            gold == self@.gold,
    {
        self.gold
    }

    /// The sword in the chest, if there is one.
    pub fn sword(&self) -> (sword: &Option<Equipment>)
        ensures
            *sword == self@.sword,
    {
        &self.sword
    }

    /// The shield in the chest, if there is one.
    pub fn shield(&self) -> (shield: &Option<Equipment>)
        ensures
            *shield == self@.shield,
    {
        &self.shield
    }

    /// The items in the chest.
    pub fn items(&self) -> (items: &Vec<Item>)
        ensures
            items@ == self@.items,
    {
        &self.items
    }

    /// Takes the chest apart: its items, its sword, its shield and its gold.
    pub fn into_parts(self) -> (parts: (Vec<Item>, Option<Equipment>, Option<Equipment>, i32))
        ensures
            parts.0@ == self@.items,
            parts.1 == self@.sword,
            parts.2 == self@.shield,
            parts.3 == self@.gold,
    {
        (self.items, self.sword, self.shield, self.gold)
    }

    /// Whether there is nothing in the chest.
    pub fn is_empty(&self) -> (nothing: bool)
        ensures
            nothing == self@.is_empty(),
    {
        self.items.len() == 0 && self.sword.is_none() && self.shield.is_none() && self.gold == 0
    }

    /// Whether [`Chest::pick_up`] may be called: chest and game are well
    /// formed, and the purse can take the chest's gold.
    pub open spec fn fits_into(&self, game: Game) -> bool {
        &&& self.wf()
        &&& game.wf()
        &&& game.gold + self@.gold <= i32::MAX
    }

    /// Decides [`Chest::fits_into`].
    pub fn can_be_picked_up(&self, game: &Game) -> (ok: bool)
        ensures
            ok == self.fits_into(*game),
    {
        self.is_well_formed() && game.is_well_formed() && game.gold as i64 + self.gold as i64
            <= i32::MAX as i64
    }

    /// Whether [`Chest::extend`] may be called: both chests are well formed
    /// and their gold can be added up.
    pub open spec fn takes(&self, other: Chest) -> bool {
        &&& self.wf()
        &&& other.wf()
        &&& self@.gold + other@.gold <= i32::MAX
    }

    /// Decides [`Chest::takes`].
    pub fn can_take(&self, other: &Chest) -> (ok: bool)
        ensures
            ok == self.takes(*other),
    {
        self.is_well_formed() && other.is_well_formed() && self.gold as i64 + other.gold as i64
            <= i32::MAX as i64
    }

    /// Decides [`Chest::wf`].
    pub fn is_well_formed(&self) -> (ok: bool)
        ensures
            ok == self.wf(),
    {
        self.gold >= 0 && slot_fits(&self.sword, Category::Sword) && slot_fits(
            &self.shield,
            Category::Shield,
        )
    }

    /// Takes the gold, the items, the equipment and the worn rings from the
    /// hero and returns them as a chest. The rings follow the inventory's
    /// items, left hand first. There is always a chest, even if an empty one.
    pub fn drop(game: &mut Game) -> (chest: Chest)
        requires
            old(game).wf(),
        ensures
            chest.wf(),
            chest@ == (ChestView {
                items: old(game).inventory@ + worn_rings(old(game).player),
                sword: old(game).player.sword,
                shield: old(game).player.shield,
                gold: old(game).gold as int,
            }),
            final(game).wf(),
            final(game).gold == 0,
            final(game).inventory@.len() == 0,
            final(game).player.sword is None,
            final(game).player.shield is None,
            final(game).player.left_ring is None,
            final(game).player.right_ring is None,
            final(game).player.level == old(game).player.level,
            final(game).distance == old(game).distance,
            final(game).ring_pool == old(game).ring_pool,
    {
        let mut items: Vec<Item> = Vec::new();
        items.append(&mut game.inventory);
        let sword = game.player.sword.take();
        let shield = game.player.shield.take();
        if let Some(ring) = game.player.left_ring.take() {
            items.push(Item::Ring(ring));
        }
        if let Some(ring) = game.player.right_ring.take() {
            items.push(Item::Ring(ring));
        }
        let gold = game.gold;
        game.gold = 0;
        assert(items@ =~= old(game).inventory@ + worn_rings(old(game).player));
        Chest { items, sword, shield, gold }
    }

    /// Hands the chest's contents to the hero. A piece of equipment replaces
    /// the hero's only if it is strictly stronger, and is lost otherwise; the
    /// items and the gold are always taken. Returns how many items of each
    /// kind were taken, with a one for each piece of equipment that replaced
    /// the hero's, and the gold that was taken. The chest is empty afterwards.
    pub fn pick_up(&mut self, game: &mut Game) -> (picked: (ItemCounts, i32))
        requires
            old(self).fits_into(*old(game)),
        ensures
            final(self)@ == ChestView::empty(),
            final(game).wf(),
            handed_over(*old(game), old(self)@, *final(game)),
            forall|key: Key|
                count_key(final(game).inventory@, key) == count_key(old(game).inventory@, key)
                    + #[trigger] count_key(old(self)@.items, key),
            picked.0.wf(),
            picked.0@ == picked_counts(old(self)@, old(game).player),
            picked.1 == old(self)@.gold,
    {
        let mut counts = count_items(&self.items);
        if maybe_upgrade(&mut game.player.sword, &mut self.sword) {
            counts.insert(Key::Sword, 1);
        }
        if maybe_upgrade(&mut game.player.shield, &mut self.shield) {
            counts.insert(Key::Shield, 1);
        }
        game.inventory.append(&mut self.items);
        let gold = self.gold;
        game.gold = game.gold + gold;
        self.gold = 0;
        proof {
            assert(self@.items =~= ChestView::empty().items);
            assert forall|key: Key|
                count_key(game.inventory@, key) == count_key(old(game).inventory@, key)
                    + #[trigger] count_key(old(self)@.items, key) by {
                lemma_count_concat(old(game).inventory@, old(self)@.items, key);
            }
        }
        (counts, gold)
    }

    /// Pours `other` into this chest: of each category of equipment the
    /// stronger piece is kept (this chest's, where they are equal) and the
    /// weaker is lost; the other's items follow this chest's; the gold is
    /// added up.
    pub fn extend(&mut self, other: Chest)
        requires
            old(self).takes(other),
        ensures
            final(self).wf(),
            final(self)@ == old(self)@.merged(other@),
    {
        let mut other = other;
        maybe_upgrade(&mut self.sword, &mut other.sword);
        maybe_upgrade(&mut self.shield, &mut other.shield);
        self.items.append(&mut other.items);
        self.gold = self.gold + other.gold;
    }
}

impl Default for Chest {
    /// A chest with nothing in it.
    fn default() -> (chest: Chest)
        ensures
            chest.wf(),
            chest@ == ChestView::empty(),
    {
        Chest { items: Vec::new(), sword: None, shield: None, gold: 0 }
    }
}

/// Whether `kept` is the stronger of two slots: one of the two; empty only
/// if both are; and no weaker than either.
pub open spec fn strongest(kept: Option<Equipment>, first: Option<Equipment>, second: Option<
    Equipment,
>) -> bool {
    &&& kept == first || kept == second
    &&& kept is None ==> first is None && second is None
    &&& forall|held: Equipment|
        first == Some(held) || second == Some(held) ==> kept is Some && kept->0.level >= held.level
}

/// A merge loses nothing but the weaker equipment: the gold of the two chests
/// is added up; the items of the merged chest are those of the first followed
/// by those of the second, so of every kind as many as the two hold together,
/// and none of them is a piece of equipment; and in each slot lies the
/// stronger of the two pieces, the first chest's where they are equal, or the
/// only one, or nothing where neither chest had one.
pub proof fn lemma_merge_conserves(first: ChestView, second: ChestView)
    ensures
        first.merged(second).gold == first.gold + second.gold,
        first.merged(second).items == first.items + second.items,
        first.merged(second).items.len() == first.items.len() + second.items.len(),
        forall|key: Key|
            count_key(first.merged(second).items, key) == count_key(first.items, key)
                + #[trigger] count_key(second.items, key),
        count_key(first.merged(second).items, Key::Sword) == 0,
        count_key(first.merged(second).items, Key::Shield) == 0,
        first.merged(second).items.to_multiset() == first.items.to_multiset().add(
            second.items.to_multiset(),
        ),
        first.merged(second).sword == best_of(first.sword, second.sword),
        first.merged(second).shield == best_of(first.shield, second.shield),
        strongest(first.merged(second).sword, first.sword, second.sword),
        strongest(first.merged(second).shield, first.shield, second.shield),
        first.wf() && second.wf() ==> first.merged(second).wf(),
{
    assert forall|key: Key|
        count_key(first.merged(second).items, key) == count_key(first.items, key)
            + #[trigger] count_key(second.items, key) by {
        lemma_count_concat(first.items, second.items, key);
    }
    lemma_no_equipment_among_items(first.merged(second).items);
    vstd::seq_lib::lemma_multiset_commutative(first.items, second.items);
}

/// A hero whose level is more than this above the distance finds nothing.
pub const LEVEL_SLACK: i32 = 10;

/// Whether a search is in vain from the start: the hero evades enemies, and
/// loot with them, or has outgrown the place by more than the slack.
pub open spec fn in_vain(game: Game) -> bool {
    game.player.wears(Ring::Evade) || game.player.level > game.distance + LEVEL_SLACK
}

/// Whether a search may be made in the game: it is well formed, and the gold
/// that the search could find is no more than a chest can hold.
pub open spec fn searchable(game: Game) -> bool {
    &&& game.wf()
    &&& !in_vain(game) ==> gold_reward(game.player.level as int, game.distance as int) <= i32::MAX
}

/// Decides [`searchable`].
pub fn can_search(game: &Game) -> (ok: bool)
    ensures
        ok == searchable(*game),
{
    if !game.is_well_formed() {
        return false;
    }
    if game.player.enemies_evaded() {
        return true;
    }
    let level: i64 = game.player.level as i64;
    let distance: i64 = game.distance as i64;
    level > distance + LEVEL_SLACK as i64 || GOLD_PER_LEVEL as i64 * (level + distance)
        <= i32::MAX as i64
}

/// Takes a ring out of the game's pool at random. Where none is left there is
/// none to take, and the pool stays empty.
pub fn random_ring(game: &mut Game, rng: &mut StdRng) -> (ring: Option<Ring>)
    requires
        old(game).wf(),
    ensures
        final(game).wf(),
        drawn(old(game).ring_pool@, ring, final(game).ring_pool@),
        final(game).player == old(game).player,
        final(game).distance == old(game).distance,
        final(game).gold == old(game).gold,
        final(game).inventory == old(game).inventory,
{
    game.ring_pool.try_take_random(rng)
}

/// What a search does to the game: it takes the found ring out of the pool
/// and touches nothing else.
pub open spec fn ring_taken(before: Game, rolls: Rolls, after: Game) -> bool {
    &&& after.ring_pool@ == pool_left(before.ring_pool@, rolls.ring)
    &&& after.player == before.player
    &&& after.distance == before.distance
    &&& after.gold == before.gold
    &&& after.inventory == before.inventory
}

/// The outcome of a search with the given rolls: a chest with the loot, or
/// nothing where the loot is empty.
pub open spec fn searched(before: Game, rolls: Rolls, found: Option<Chest>) -> bool {
    match found {
        Some(chest) => chest@ == loot(before, rolls) && !chest@.is_empty(),
        None => loot(before, rolls).is_empty(),
    }
}

/// What is left of a search's loot after a battle: the loot without the gold.
pub open spec fn spoils(before: Game, rolls: Rolls) -> ChestView {
    ChestView { gold: 0, ..loot(before, rolls) }
}

/// The outcome of a search after a battle: a chest with the spoils, or
/// nothing where there are none. A search that found gold and nothing else
/// yields nothing.
pub open spec fn searched_after_battle(before: Game, rolls: Rolls, found: Option<Chest>) -> bool {
    match found {
        Some(chest) => chest@ == spoils(before, rolls) && !chest@.is_empty(),
        None => spoils(before, rolls).is_empty(),
    }
}

/// A search that got as far as rolling: the dice fell as they can fall in
/// the game, the rolls are what the dice say, and the ring that the rolls
/// found has left the pool.
pub open spec fn rolled_for(before: Game, dice: Dice, rolls: Rolls, after: Game) -> bool {
    &&& dice.fits(before)
    &&& rolled(before, dice, rolls)
    &&& rolls.possible(before)
    &&& ring_taken(before, rolls, after)
}

impl Chest {
    /// Puts together the chest that the given rolls turn up, and takes the
    /// ring it holds out of the game's pool. A roll for a ring that finds the
    /// pool empty counts for nothing. Where nothing was found at all, there
    /// is no chest.
    pub fn from_rolls(game: &mut Game, rolls: Rolls) -> (found: Option<Chest>)
        requires
            old(game).wf(),
            rolls.gold ==> gold_reward(old(game).player.level as int, old(game).distance as int)
                <= i32::MAX,
        ensures
            final(game).wf(),
            ring_taken(*old(game), rolls, *final(game)),
            searched(*old(game), rolls, found),
            found matches Some(chest) ==> chest.wf(),
    {
        let mut chest = Chest::default();
        if rolls.gold {
            chest.gold = gold_found(game.player.level, game.distance);
        }
        if let Some(piece) = rolls.equipment {
            match piece.category() {
                Category::Sword => {
                    chest.sword = Some(piece);
                },
                Category::Shield => {
                    chest.shield = Some(piece);
                },
            }
        }
        if let Some(place) = rolls.ring {
            if let Some(ring) = game.ring_pool.take_at(place) {
                chest.items.push(Item::Ring(ring));
            }
        }
        let mut items = rolls.items;
        chest.items.append(&mut items);
        proof {
            assert(chest@.items =~= loot(*old(game), rolls).items);
        }
        if chest.is_empty() {
            None
        } else {
            Some(chest)
        }
    }

    /// Searches the place where the hero stands for a chest.
    ///
    /// A hero who evades enemies finds nothing, and neither does one whose
    /// level is more than [`LEVEL_SLACK`] above the distance. For any other
    /// the dice are thrown ([`Dice::throw`]) and read ([`Rolls::from_dice`]),
    /// and the chest is what the rolls turn up ([`Chest::from_rolls`]): a
    /// chest that is not empty, or nothing. A ring in the chest has left the
    /// game's pool; nothing else in the game changes.
    pub fn generate(game: &mut Game, rng: &mut StdRng) -> (found: Option<Chest>)
        requires
            searchable(*old(game)),
        ensures
            final(game).wf(),
            in_vain(*old(game)) ==> found is None && *final(game) == *old(game),
            !in_vain(*old(game)) ==> exists|dice: Dice, rolls: Rolls|
                #![trigger rolled_for(*old(game), dice, rolls, *final(game))]
                rolled_for(*old(game), dice, rolls, *final(game)) && searched(*old(game), rolls, found),
            found matches Some(chest) ==> chest.wf() && !chest@.is_empty(),
            final(game).player == old(game).player,
            final(game).distance == old(game).distance,
            final(game).gold == old(game).gold,
            final(game).inventory == old(game).inventory,
            found is None ==> final(game).ring_pool@ == old(game).ring_pool@,
    {
        if game.player.enemies_evaded() {
            return None;
        }
        if game.player.level as i64 > game.distance as i64 + LEVEL_SLACK as i64 {
            return None;
        }
        let rolls = Rolls::draw(game, rng);
        let ghost read = rolls;
        let ghost thrown = choose|dice: Dice| #[trigger]
            dice.fits(*old(game)) && rolled(*old(game), dice, read);
        let found = Chest::from_rolls(game, rolls);
        proof {
            assert(rolled_for(*old(game), thrown, read, *game));
        }
        found
    }

    /// Searches for a chest after a battle. It is the search of
    /// [`Chest::generate`], but the spoils of a battle hold no gold: the
    /// chest's gold is taken out before it is handed over, and a chest that
    /// held nothing but gold is not handed over at all.
    pub fn battle_loot(game: &mut Game, rng: &mut StdRng) -> (found: Option<Chest>)
        requires
            searchable(*old(game)),
        ensures
            final(game).wf(),
            in_vain(*old(game)) ==> found is None && *final(game) == *old(game),
            !in_vain(*old(game)) ==> exists|dice: Dice, rolls: Rolls|
                #![trigger rolled_for(*old(game), dice, rolls, *final(game))]
                rolled_for(*old(game), dice, rolls, *final(game)) && searched_after_battle(
                    *old(game),
                    rolls,
                    found,
                ),
            found matches Some(chest) ==> chest.wf() && chest@.gold == 0 && !chest@.is_empty(),
            final(game).player == old(game).player,
            final(game).distance == old(game).distance,
            final(game).gold == old(game).gold,
            final(game).inventory == old(game).inventory,
            found is None ==> final(game).ring_pool@ == old(game).ring_pool@,
    {
        match Chest::generate(game, rng) {
            Some(chest) => {
                let ghost whole = chest;
                let mut chest = chest;
                chest.gold = 0;
                let found = if chest.is_empty() {
                    None
                } else {
                    Some(chest)
                };
                proof {
                    if !in_vain(*old(game)) {
                        let (dice, rolls) = choose|dice: Dice, rolls: Rolls|
                            #![trigger rolled_for(*old(game), dice, rolls, *game)]
                            rolled_for(*old(game), dice, rolls, *game) && searched(
                                *old(game),
                                rolls,
                                Some(whole),
                            );
                        assert(rolled_for(*old(game), dice, rolls, *game));
                        assert(searched_after_battle(*old(game), rolls, found));
                    }
                }
                found
            },
            None => {
                proof {
                    if !in_vain(*old(game)) {
                        let (dice, rolls) = choose|dice: Dice, rolls: Rolls|
                            #![trigger rolled_for(*old(game), dice, rolls, *game)]
                            rolled_for(*old(game), dice, rolls, *game) && searched(
                                *old(game),
                                rolls,
                                None,
                            );
                        assert(rolled_for(*old(game), dice, rolls, *game));
                        assert(searched_after_battle(*old(game), rolls, None));
                    }
                }
                None
            },
        }
    }
}

} // verus!
