use rand::rngs::StdRng;
use rand::SeedableRng;
use rpg_loot::randomizer::chance_percent;
use rpg_loot::randomizer::chance_roll;
use rpg_loot::randomizer::choose_weighted;
use rpg_loot::randomizer::SelectError;
use rpg_loot::randomizer::CHANCE_CAP;

#[test]
fn chance_starts_at_its_base() {
    assert_eq!(10, chance_percent(10, 0));
    assert_eq!(10, chance_percent(10, -3));
    assert_eq!(0, chance_percent(0, 0));
    assert_eq!(0, chance_percent(0, 1_000_000));
}

#[test]
fn chance_grows_by_half_its_base_at_twenty_steps() {
    assert_eq!(15, chance_percent(10, 20));
    assert_eq!(13, chance_percent(10, 10));
    assert_eq!(10, chance_percent(10, 1));
    assert_eq!(11, chance_percent(10, 3));
    assert_eq!(17, chance_percent(10, 60));
    assert_eq!(19, chance_percent(10, 1_000));
    assert_eq!(19, chance_percent(10, i32::MAX));
    assert_eq!(3, chance_percent(2, 20));
    assert_eq!(7, chance_percent(5, 20));
}

#[test]
fn chance_never_falls_with_distance_and_never_doubles() {
    for base in [1u32, 2, 5, 10, 15, 33, 44] {
        let mut last = chance_percent(base, 0);
        assert_eq!(base, last);
        for distance in 1..2_000 {
            let now = chance_percent(base, distance);
            assert!(last <= now);
            assert!(now <= 2 * base);
            assert!(now <= CHANCE_CAP);
            last = now;
        }
    }
}

#[test]
fn chance_is_capped_below_certainty() {
    assert_eq!(90, CHANCE_CAP);
    assert_eq!(90, chance_percent(60, 1_000_000));
    assert_eq!(89, chance_percent(60, 19));
    assert_eq!(90, chance_percent(60, 20));
    assert_eq!(90, chance_percent(100, 0));
    assert_eq!(90, chance_percent(u32::MAX, i32::MAX));
}

#[test]
fn a_roll_without_a_chance_never_hits() {
    let mut rng = StdRng::seed_from_u64(11);
    for distance in 0..500 {
        assert!(!chance_roll(0, distance, &mut rng));
    }
}

#[test]
fn a_roll_with_a_chance_hits_sometimes_and_misses_sometimes() {
    let mut rng = StdRng::seed_from_u64(12);
    let mut hits = 0;
    for _ in 0..2_000 {
        if chance_roll(45, 0, &mut rng) {
            hits += 1;
        }
    }
    assert!(hits > 600);
    assert!(hits < 1_200);

    let mut capped = 0;
    for _ in 0..2_000 {
        if chance_roll(100, 50, &mut rng) {
            capped += 1;
        }
    }
    assert!(capped > 1_600);
    assert!(capped < 2_000);
}

#[test]
fn rolls_with_one_seed_repeat() {
    let mut first = StdRng::seed_from_u64(99);
    let mut second = StdRng::seed_from_u64(99);
    for distance in 0..200 {
        assert_eq!(
            chance_roll(30, distance, &mut first),
            chance_roll(30, distance, &mut second)
        );
    }
}

#[test]
fn weights_that_add_up_to_zero_are_invalid() {
    let mut rng = StdRng::seed_from_u64(1);
    assert_eq!(
        Err(SelectError::InvalidWeights),
        choose_weighted(&Vec::new(), &mut rng)
    );
    assert_eq!(
        Err(SelectError::InvalidWeights),
        choose_weighted(&vec![0], &mut rng)
    );
    assert_eq!(
        Err(SelectError::InvalidWeights),
        choose_weighted(&vec![0, 0, 0], &mut rng)
    );
}

#[test]
fn the_only_weight_above_zero_is_always_chosen() {
    let mut rng = StdRng::seed_from_u64(2);
    for _ in 0..200 {
        assert_eq!(Ok(2), choose_weighted(&vec![0, 0, 7, 0], &mut rng));
        assert_eq!(Ok(0), choose_weighted(&vec![1], &mut rng));
        assert_eq!(Ok(3), choose_weighted(&vec![0, 0, 0, u32::MAX], &mut rng));
    }
}

#[test]
fn a_weight_of_zero_is_never_chosen() {
    let mut rng = StdRng::seed_from_u64(3);
    let weights = vec![5, 0, 1, 0, 3];
    let mut seen = [0usize; 5];
    for _ in 0..3_000 {
        let index = choose_weighted(&weights, &mut rng).unwrap();
        assert!(index < weights.len());
        seen[index] += 1;
    }
    assert_eq!(0, seen[1]);
    assert_eq!(0, seen[3]);
    assert!(seen[0] > seen[4]);
    assert!(seen[4] > seen[2]);
    assert!(seen[2] > 0);
}

#[test]
fn heavier_weights_are_chosen_more_often() {
    let mut rng = StdRng::seed_from_u64(4);
    let weights = vec![1, 9];
    let mut heavy = 0;
    for _ in 0..2_000 {
        if choose_weighted(&weights, &mut rng) == Ok(1) {
            heavy += 1;
        }
    }
    assert!(heavy > 1_600);
    assert!(heavy < 2_000);
}
