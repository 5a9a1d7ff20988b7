use rpg_loot::game::Game;
use rpg_loot::item::count_items;
use rpg_loot::item::key::ItemCounts;
use rpg_loot::item::key::Key;
use rpg_loot::item::ring::Ring;
use rpg_loot::item::ring::RingPool;
use rpg_loot::item::Item;

#[test]
fn new_counts_are_empty() {
    let counts = ItemCounts::new();
    assert!(counts.is_empty());
    assert_eq!(0, counts.len());
    assert_eq!(None, counts.get(&Key::Potion));
    assert!(!counts.contains_key(&Key::Potion));
    assert!(counts.entries().is_empty());
}

#[test]
fn insert_sets_and_replaces_a_count() {
    let mut counts = ItemCounts::new();
    counts.insert(Key::Sword, 1);
    counts.insert(Key::Potion, 4);
    assert_eq!(Some(1), counts.get(&Key::Sword));
    assert_eq!(Some(4), counts.get(&Key::Potion));
    assert_eq!(2, counts.len());
    counts.insert(Key::Potion, 9);
    assert_eq!(Some(9), counts.get(&Key::Potion));
    assert_eq!(Some(1), counts.get(&Key::Sword));
    assert_eq!(2, counts.len());
    assert!(!counts.is_empty());
}

#[test]
fn add_one_counts_up_from_nothing() {
    let mut counts = ItemCounts::new();
    counts.add_one(Key::Ring(Ring::Gold));
    assert_eq!(Some(1), counts.get(&Key::Ring(Ring::Gold)));
    assert_eq!(None, counts.get(&Key::Ring(Ring::Mana)));
    counts.add_one(Key::Ring(Ring::Gold));
    counts.add_one(Key::Escape);
    counts.add_one(Key::Ring(Ring::Gold));
    assert_eq!(Some(3), counts.get(&Key::Ring(Ring::Gold)));
    assert_eq!(Some(1), counts.get(&Key::Escape));
    assert!(counts.contains_key(&Key::Escape));
    assert!(!counts.contains_key(&Key::Shield));
    let mut entries = counts.entries();
    entries.sort_by_key(|entry| entry.1);
    assert_eq!(vec![(Key::Escape, 1), (Key::Ring(Ring::Gold), 3)], entries);
}

#[test]
fn items_are_counted_by_kind_whatever_their_level() {
    let items = vec![
        Item::Potion(1),
        Item::Ether(5),
        Item::Potion(10),
        Item::SpeedStone,
        Item::Potion(5),
        Item::Ring(Ring::Attack),
        Item::Ether(5),
    ];
    let counts = count_items(&items);
    assert_eq!(Some(3), counts.get(&Key::Potion));
    assert_eq!(Some(2), counts.get(&Key::Ether));
    assert_eq!(Some(1), counts.get(&Key::SpeedStone));
    assert_eq!(Some(1), counts.get(&Key::Ring(Ring::Attack)));
    assert_eq!(None, counts.get(&Key::Ring(Ring::Defense)));
    assert_eq!(None, counts.get(&Key::Sword));
    assert_eq!(4, counts.len());
    assert!(count_items(&Vec::new()).is_empty());
}

#[test]
fn an_inventory_counts_what_was_added() {
    let mut game = Game::new();
    assert!(game.inventory().is_empty());
    game.add_item(Item::Remedy);
    game.add_item(Item::Remedy);
    game.add_item(Item::MagicStone);
    assert_eq!(Some(2), game.inventory().get(&Key::Remedy));
    assert_eq!(Some(1), game.inventory().get(&Key::MagicStone));
    assert_eq!(
        vec![Item::Remedy, Item::Remedy, Item::MagicStone],
        game.inventory
    );
}

#[test]
fn a_new_game_starts_at_home_with_every_ring_to_find() {
    let game = Game::new();
    assert_eq!(1, game.player.level);
    assert_eq!(0, game.distance);
    assert_eq!(0, game.gold);
    assert!(game.inventory.is_empty());
    assert_eq!(None, game.player.sword);
    assert_eq!(None, game.player.shield);
    assert_eq!(None, game.player.left_ring);
    assert_eq!(None, game.player.right_ring);
    assert_eq!(
        vec![
            Ring::Attack,
            Ring::Defense,
            Ring::Speed,
            Ring::Magic,
            Ring::Health,
            Ring::Mana,
            Ring::Evade,
            Ring::Chest,
            Ring::Gold,
            Ring::Revive,
        ],
        game.ring_pool.rings()
    );
}

#[test]
fn a_pool_holds_each_kind_once() {
    let mut pool = RingPool::empty();
    assert!(pool.is_empty());
    assert!(pool.insert(Ring::Magic));
    assert!(!pool.insert(Ring::Magic));
    assert!(pool.insert(Ring::Evade));
    assert_eq!(2, pool.len());
    assert!(pool.contains(Ring::Magic));
    assert!(!pool.contains(Ring::Gold));
    assert_eq!(vec![Ring::Magic, Ring::Evade], pool.rings());

    let pool = RingPool::with_rings(&vec![Ring::Gold, Ring::Mana, Ring::Gold, Ring::Gold]);
    assert_eq!(vec![Ring::Gold, Ring::Mana], pool.rings());
}

#[test]
fn taking_at_a_place_takes_that_ring_or_nothing() {
    let mut pool = RingPool::with_rings(&vec![Ring::Attack, Ring::Speed, Ring::Revive]);
    assert_eq!(None, pool.take_at(3));
    assert_eq!(3, pool.len());
    assert_eq!(Some(Ring::Speed), pool.take_at(1));
    assert_eq!(vec![Ring::Attack, Ring::Revive], pool.rings());
    assert_eq!(Some(Ring::Revive), pool.take_at(1));
    assert_eq!(Some(Ring::Attack), pool.take_at(0));
    assert_eq!(None, pool.take_at(0));
    assert!(pool.is_empty());
}
