use rand::rngs::StdRng;
use rand::SeedableRng;
use rpg_loot::game::Game;
use rpg_loot::item::chest::random_ring;
use rpg_loot::item::chest::Chest;
use rpg_loot::item::equipment::maybe_upgrade;
use rpg_loot::item::equipment::Category;
use rpg_loot::item::equipment::Equipment;
use rpg_loot::item::key::Key;
use rpg_loot::item::ring::Ring;
use rpg_loot::item::ring::RingPool;
use rpg_loot::item::Item;

fn keys(items: &Vec<Item>) -> Vec<Key> {
    items.iter().map(|item| item.key()).collect()
}

#[test]
fn upgrade_replaces_a_weaker_piece() {
    let mut current = Some(Equipment::sword(3));
    let mut other = Some(Equipment::sword(4));
    assert!(maybe_upgrade(&mut current, &mut other));
    assert_eq!(Some(Equipment::sword(4)), current);
    assert_eq!(None, other);
}

#[test]
fn upgrade_fills_an_empty_slot() {
    let mut current = None;
    let mut other = Some(Equipment::shield(1));
    assert!(maybe_upgrade(&mut current, &mut other));
    assert_eq!(Some(Equipment::shield(1)), current);
    assert_eq!(None, other);
}

#[test]
fn upgrade_keeps_a_piece_of_equal_level() {
    let mut current = Some(Equipment::sword(7));
    let mut other = Some(Equipment::sword(7));
    assert!(!maybe_upgrade(&mut current, &mut other));
    assert_eq!(Some(Equipment::sword(7)), current);
    assert_eq!(None, other);
}

#[test]
fn upgrade_keeps_a_stronger_piece_and_discards_the_candidate() {
    let mut current = Some(Equipment::shield(9));
    let mut other = Some(Equipment::shield(2));
    assert!(!maybe_upgrade(&mut current, &mut other));
    assert_eq!(Some(Equipment::shield(9)), current);
    assert_eq!(None, other);
}

#[test]
fn upgrade_without_a_candidate_changes_nothing() {
    let mut current = Some(Equipment::sword(2));
    let mut other = None;
    assert!(!maybe_upgrade(&mut current, &mut other));
    assert_eq!(Some(Equipment::sword(2)), current);
    assert_eq!(None, other);

    let mut empty: Option<Equipment> = None;
    assert!(!maybe_upgrade(&mut empty, &mut other));
    assert_eq!(None, empty);
}

#[test]
fn is_upgrade_from_is_strict() {
    let piece = Equipment::sword(5);
    assert!(piece.is_upgrade_from(&None));
    assert!(piece.is_upgrade_from(&Some(Equipment::sword(4))));
    assert!(!piece.is_upgrade_from(&Some(Equipment::sword(5))));
    assert!(!piece.is_upgrade_from(&Some(Equipment::sword(6))));
    assert_eq!(Category::Sword, piece.category());
    assert_eq!(5, piece.level());
    assert_eq!(Category::Shield, Equipment::shield(1).category());
}

#[test]
fn drop_strips_the_hero() {
    let mut game = Game::new();
    game.player.level = 4;
    game.distance = 9;
    game.gold = 730;
    game.add_item(Item::Ether(5));
    game.add_item(Item::LevelStone);
    game.player.sword = Some(Equipment::sword(15));
    game.player.right_ring = Some(Ring::Gold);
    let pool_before = game.ring_pool.rings();

    let chest = Chest::drop(&mut game);

    assert_eq!(730, chest.gold());
    assert_eq!(&Some(Equipment::sword(15)), chest.sword());
    assert_eq!(&None, chest.shield());
    assert_eq!(
        vec![Key::Ether, Key::LevelStone, Key::Ring(Ring::Gold)],
        keys(chest.items())
    );
    assert_eq!(&Item::Ether(5), &chest.items()[0]);

    assert_eq!(0, game.gold);
    assert!(game.inventory.is_empty());
    assert_eq!(None, game.player.sword);
    assert_eq!(None, game.player.shield);
    assert_eq!(None, game.player.left_ring);
    assert_eq!(None, game.player.right_ring);
    assert_eq!(4, game.player.level);
    assert_eq!(9, game.distance);
    assert_eq!(pool_before, game.ring_pool.rings());
}

#[test]
fn drop_of_a_hero_with_nothing_is_an_empty_chest() {
    let mut game = Game::new();
    let chest = Chest::drop(&mut game);
    assert!(chest.is_empty());
    assert_eq!(0, chest.gold());
}

#[test]
fn pick_up_conserves_gold_and_items() {
    let mut game = Game::new();
    game.gold = 40;
    game.add_item(Item::Potion(1));
    game.add_item(Item::Escape);
    let mut chest = Chest::new(
        vec![Item::Potion(5), Item::Potion(5), Item::Remedy],
        None,
        None,
        260,
    )
    .unwrap();

    let (counts, gold) = chest.pick_up(&mut game);

    assert_eq!(260, gold);
    assert_eq!(300, game.gold);
    assert_eq!(Some(3), game.inventory().get(&Key::Potion));
    assert_eq!(Some(1), game.inventory().get(&Key::Escape));
    assert_eq!(Some(1), game.inventory().get(&Key::Remedy));
    assert_eq!(None, game.inventory().get(&Key::Ether));
    assert_eq!(5, game.inventory.len());

    assert_eq!(Some(2), counts.get(&Key::Potion));
    assert_eq!(Some(1), counts.get(&Key::Remedy));
    assert_eq!(None, counts.get(&Key::Escape));
    assert_eq!(None, counts.get(&Key::Sword));
    assert_eq!(None, counts.get(&Key::Shield));
    assert_eq!(2, counts.len());

    assert!(chest.is_empty());
    assert_eq!(0, chest.gold());
}

#[test]
fn pick_up_reports_an_upgraded_sword() {
    let mut game = Game::new();
    game.player.sword = Some(Equipment::sword(1));
    game.gold = 50;
    let mut chest = Chest::new(Vec::new(), Some(Equipment::sword(5)), None, 100).unwrap();

    let (counts, gold) = chest.pick_up(&mut game);

    assert_eq!(5, game.player.sword.as_ref().unwrap().level());
    assert_eq!(150, game.gold);
    assert_eq!(100, gold);
    assert_eq!(Some(1), counts.get(&Key::Sword));
    assert_eq!(None, counts.get(&Key::Shield));
    assert_eq!(1, counts.len());
    assert!(chest.is_empty());
}

#[test]
fn pick_up_loses_a_weaker_shield_without_reporting_it() {
    let mut game = Game::new();
    game.player.shield = Some(Equipment::shield(10));
    let mut chest = Chest::new(Vec::new(), None, Some(Equipment::shield(10)), 0).unwrap();

    let (counts, gold) = chest.pick_up(&mut game);

    assert_eq!(Some(Equipment::shield(10)), game.player.shield);
    assert_eq!(0, gold);
    assert!(counts.is_empty());
    assert_eq!(&None, chest.shield());
}

#[test]
fn five_rings_are_drawn_once_each() {
    let mut rng = StdRng::seed_from_u64(5);
    let seeded = vec![
        Ring::Attack,
        Ring::Magic,
        Ring::Evade,
        Ring::Gold,
        Ring::Revive,
    ];
    let mut pool = RingPool::with_rings(&seeded);
    assert_eq!(5, pool.len());

    let mut drawn: Vec<Ring> = Vec::new();
    for left in (1..=5).rev() {
        assert_eq!(left, pool.len());
        let ring = pool.try_take_random(&mut rng).unwrap();
        assert!(seeded.contains(&ring));
        assert!(!drawn.contains(&ring));
        assert!(!pool.contains(ring));
        drawn.push(ring);
    }
    for i in 0..5 {
        for j in 0..i {
            assert_ne!(drawn[i], drawn[j]);
        }
    }

    assert!(pool.is_empty());
    assert_eq!(None, pool.try_take_random(&mut rng));
    assert_eq!(None, pool.try_take_random(&mut rng));
    assert_eq!(0, pool.len());
}

#[test]
fn a_full_pool_yields_every_kind_then_nothing() {
    for seed in 0..20 {
        let mut rng = StdRng::seed_from_u64(seed);
        let mut game = Game::new();
        let all = game.ring_pool.rings();
        assert_eq!(10, all.len());
        let mut drawn: Vec<Ring> = Vec::new();
        while let Some(ring) = random_ring(&mut game, &mut rng) {
            assert!(!drawn.contains(&ring));
            drawn.push(ring);
            assert!(drawn.len() <= all.len());
        }
        assert_eq!(all.len(), drawn.len());
        for ring in all.iter() {
            assert!(drawn.contains(ring));
        }
        for _ in 0..3 {
            assert_eq!(None, random_ring(&mut game, &mut rng));
        }
    }
}

#[test]
fn merge_adds_gold_joins_items_and_keeps_the_stronger() {
    let mut first = Chest::new(
        vec![Item::Ether(5), Item::Ring(Ring::Speed)],
        None,
        Some(Equipment::shield(5)),
        12,
    )
    .unwrap();
    let second = Chest::new(
        vec![Item::Ether(10), Item::HealthStone, Item::Ether(5)],
        Some(Equipment::sword(20)),
        Some(Equipment::shield(5)),
        30,
    )
    .unwrap();

    first.extend(second);

    assert_eq!(42, first.gold());
    assert_eq!(&Some(Equipment::sword(20)), first.sword());
    assert_eq!(&Some(Equipment::shield(5)), first.shield());
    assert_eq!(
        &vec![
            Item::Ether(5),
            Item::Ring(Ring::Speed),
            Item::Ether(10),
            Item::HealthStone,
            Item::Ether(5)
        ],
        first.items()
    );
}

#[test]
fn merge_with_an_empty_chest_changes_nothing() {
    let mut chest = Chest::new(vec![Item::Escape], Some(Equipment::sword(3)), None, 7).unwrap();
    chest.extend(Chest::default());
    assert_eq!(7, chest.gold());
    assert_eq!(&Some(Equipment::sword(3)), chest.sword());
    assert_eq!(&None, chest.shield());
    assert_eq!(&vec![Item::Escape], chest.items());

    let mut empty = Chest::default();
    empty.extend(chest);
    assert_eq!(7, empty.gold());
    assert_eq!(&Some(Equipment::sword(3)), empty.sword());
    assert_eq!(&vec![Item::Escape], empty.items());
}

#[test]
fn a_chest_is_refused_negative_gold_and_misplaced_equipment() {
    assert!(Chest::new(Vec::new(), None, None, -1).is_none());
    assert!(Chest::new(Vec::new(), Some(Equipment::shield(1)), None, 0).is_none());
    assert!(Chest::new(Vec::new(), None, Some(Equipment::sword(1)), 0).is_none());
    assert!(Chest::new(Vec::new(), None, None, 0).unwrap().is_empty());
    assert!(Chest::new(Vec::new(), None, None, i32::MAX).is_some());
}

#[test]
fn a_chest_comes_apart_into_what_it_was_made_of() {
    let chest = Chest::new(
        vec![Item::Remedy, Item::Potion(5)],
        Some(Equipment::sword(2)),
        Some(Equipment::shield(3)),
        9,
    )
    .unwrap();
    assert!(!chest.is_empty());
    let (items, sword, shield, gold) = chest.into_parts();
    assert_eq!(vec![Item::Remedy, Item::Potion(5)], items);
    assert_eq!(Some(Equipment::sword(2)), sword);
    assert_eq!(Some(Equipment::shield(3)), shield);
    assert_eq!(9, gold);
}

#[test]
fn the_default_chest_is_empty() {
    let chest = Chest::default();
    assert!(chest.is_empty());
    assert_eq!(0, chest.gold());
    assert!(chest.items().is_empty());
    assert_eq!(&None, chest.sword());
    assert_eq!(&None, chest.shield());
}

#[test]
fn the_checks_before_a_call_say_when_it_may_be_made() {
    let mut game = Game::new();
    assert!(game.is_well_formed());
    assert!(game.player.is_well_formed());
    assert!(game.ring_pool.is_well_formed());

    let mut chest = Chest::new(vec![Item::Escape], None, None, 10).unwrap();
    assert!(chest.is_well_formed());
    assert!(chest.can_be_picked_up(&game));
    game.gold = i32::MAX - 9;
    assert!(!chest.can_be_picked_up(&game));
    game.gold = i32::MAX - 10;
    assert!(chest.can_be_picked_up(&game));
    chest.pick_up(&mut game);
    assert_eq!(i32::MAX, game.gold);

    let rich = Chest::new(Vec::new(), None, None, i32::MAX).unwrap();
    let poor = Chest::new(Vec::new(), None, None, 1).unwrap();
    assert!(!rich.can_take(&poor));
    assert!(rich.can_take(&Chest::default()));
    assert!(Chest::default().can_take(&rich));

    game.gold = -1;
    assert!(!game.is_well_formed());
    assert!(!Chest::default().can_be_picked_up(&game));
    game.gold = 0;
    game.player.level = 0;
    assert!(!game.is_well_formed());
    game.player.level = 1;
    game.distance = -1;
    assert!(!game.is_well_formed());
    game.distance = 0;
    game.player.sword = Some(Equipment::shield(1));
    assert!(!game.is_well_formed());
    assert!(!game.player.is_well_formed());
    game.player.sword = Some(Equipment::sword(1));
    assert!(game.is_well_formed());
}
