use rand::rngs::StdRng;
use rand::SeedableRng;
use rpg_loot::game::Game;
use rpg_loot::item::chest::random_ring;
use rpg_loot::item::chest::Chest;
use rpg_loot::item::equipment::Equipment;
use rpg_loot::item::key::Key;
use rpg_loot::item::ring::Ring;
use rpg_loot::item::Item;

#[test]
fn test_empty_drop_pickup() {
    let mut game = Game::new();
    let mut tomb = Chest::drop(&mut game);

    assert_eq!(0, tomb.gold());
    assert!(tomb.sword().is_none());
    assert!(tomb.shield().is_none());
    assert!(tomb.items().is_empty());

    let mut game = Game::new();
    tomb.pick_up(&mut game);

    assert_eq!(0, game.gold);
    assert!(game.player.sword.is_none());
    assert!(game.player.shield.is_none());
    assert!(game.inventory().is_empty());
}

#[test]
fn test_full_drop_pickup() {
    let mut game = Game::new();
    game.add_item(Item::Potion(1));
    game.add_item(Item::Potion(1));
    game.player.sword = Some(Equipment::sword(1));
    game.player.shield = Some(Equipment::shield(1));
    game.gold = 100;

    let mut tomb = Chest::drop(&mut game);

    assert_eq!(100, tomb.gold());
    assert!(tomb.sword().is_some());
    assert!(tomb.shield().is_some());
    assert_eq!(2, tomb.items().len());

    let mut game = Game::new();
    tomb.pick_up(&mut game);

    assert_eq!(100, game.gold);
    assert!(game.player.sword.is_some());
    assert!(game.player.shield.is_some());
    assert_eq!(2, game.inventory().get(&Key::Potion).unwrap());
}

#[test]
fn test_pickup_extends() {
    let mut game = Game::new();
    game.add_item(Item::Potion(1));
    game.add_item(Item::Potion(1));
    game.player.sword = Some(Equipment::sword(1));
    game.player.shield = Some(Equipment::shield(10));
    game.gold = 100;

    let mut tomb = Chest::drop(&mut game);

    // set some defaults for the new game before picking up
    let mut game = Game::new();
    game.add_item(Item::Potion(1));
    game.player.sword = Some(Equipment::sword(5));
    game.player.shield = Some(Equipment::shield(5));
    game.gold = 50;

    tomb.pick_up(&mut game);

    assert_eq!(150, game.gold);

    // the found sword was weaker, the hero kept the one in hand
    assert_eq!(5, game.player.sword.as_ref().unwrap().level());

    // the found shield was stronger, the hero took it
    assert_eq!(10, game.player.shield.as_ref().unwrap().level());

    assert_eq!(3, game.inventory().get(&Key::Potion).unwrap());
}

#[test]
fn test_merge() {
    let items: Vec<Item> = vec![Item::Potion(1), Item::Potion(1)];
    let mut chest1 = Chest::new(
        items,
        Some(Equipment::sword(1)),
        Some(Equipment::shield(10)),
        100,
    )
    .unwrap();

    let items: Vec<Item> = vec![Item::Potion(1), Item::Escape];
    let chest2 = Chest::new(
        items,
        Some(Equipment::sword(10)),
        Some(Equipment::shield(1)),
        100,
    )
    .unwrap();

    chest1.extend(chest2);
    assert_eq!(200, chest1.gold());
    assert_eq!(10, chest1.sword().as_ref().unwrap().level());
    assert_eq!(10, chest1.shield().as_ref().unwrap().level());
    let item_keys = chest1.items().iter().map(|i| i.key()).collect::<Vec<_>>();
    assert_eq!(
        vec![Key::Potion, Key::Potion, Key::Potion, Key::Escape],
        item_keys
    );
}

#[test]
fn test_take_random_ring() {
    let mut rng = StdRng::seed_from_u64(2024);
    let mut game = Game::new();
    let total = game.ring_pool.len();
    assert!(total > 0);

    for i in 0..total {
        assert_eq!(total - i, game.ring_pool.len());
        assert!(random_ring(&mut game, &mut rng).is_some());
    }

    assert!(game.ring_pool.is_empty());
    assert!(random_ring(&mut game, &mut rng).is_none());
}

#[test]
fn test_drop_equipped_rings() {
    let mut game = Game::new();
    game.add_item(Item::Potion(1));
    game.player.left_ring = Some(Ring::Speed);
    game.player.right_ring = Some(Ring::Magic);

    let mut chest = Chest::drop(&mut game);
    assert!(game.player.left_ring.is_none());
    assert!(game.player.right_ring.is_none());
    let item_keys = chest.items().iter().map(|i| i.key()).collect::<Vec<_>>();
    assert_eq!(
        vec![Key::Potion, Key::Ring(Ring::Speed), Key::Ring(Ring::Magic)],
        item_keys
    );

    chest.pick_up(&mut game);
    assert!(game.inventory().contains_key(&Key::Ring(Ring::Speed)));
    assert!(game.inventory().contains_key(&Key::Ring(Ring::Magic)));
}
