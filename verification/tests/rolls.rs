//! The generator, the rolls and their texts, from given seeds.
use dice_roller::clock::seed_at;
use dice_roller::generator::{first_state, next_state, throw};
use dice_roller::roller::{
    config_message, one, DiceConfig, DiceRoller, FlipArgs, RollArgs, ToolError,
};
use dice_roller::text::{decimal_text, join, push_list, sum};

fn roller(default_sides: u32, total_rolls: u64) -> DiceRoller {
    DiceRoller { config: DiceConfig { default_sides }, total_rolls }
}

#[test]
fn the_generator_steps() {
    assert_eq!(next_state(1), 270369);
    assert_eq!(next_state(2463534242), 723471715);
    assert_eq!(next_state(u32::MAX), 253983);
    assert_eq!(next_state(0), 0);
}

#[test]
fn a_roll_starts_from_the_seed_and_the_tally() {
    assert_eq!(first_state(7, 5), 12);
    assert_eq!(first_state(1, u32::MAX as u64), 0);
    assert_eq!(first_state(3, 0x1_0000_0000), 3);
    assert_eq!(first_state(2, u64::MAX), 1);
}

#[test]
fn dice_are_thrown() {
    assert_eq!(throw(1, 3, 20), vec![10, 10, 2]);
    assert_eq!(throw(42, 2, 1000), vec![433, 349]);
    assert_eq!(throw(42, 1, u32::MAX), vec![11355433]);
    assert_eq!(throw(1, 0, 0), Vec::<u32>::new());
    assert_eq!(throw(9, 4, 1), vec![1, 1, 1, 1]);
}

#[test]
fn a_roll_from_zero_shows_ones() {
    assert_eq!(throw(0, 3, 20), vec![1, 1, 1]);
    assert_eq!(roller(6, u32::MAX as u64).roll_from(1, 3, 6), vec![1, 1, 1]);
}

#[test]
fn dice_stay_in_range() {
    let mut h = roller(6, 0);
    for sides in [1, 2, 6, 20, 100, 1000] {
        for seed in 0..200 {
            let results = h.roll_from(seed * 4_999_999, 100, sides);
            assert_eq!(results.len(), 100);
            assert!(results.iter().all(|v| (1..=sides).contains(v)), "{results:?}");
        }
    }
}

#[test]
fn the_tally_counts_every_die() {
    let mut h = roller(6, 0);
    assert_eq!(h.roll_from(123456789, 4, 6), vec![6, 1, 2, 3]);
    assert_eq!(h.total_rolls, 4);
    assert_eq!(h.roll_from(123456789, 4, 6), vec![2, 1, 3, 3]);
    assert_eq!(h.total_rolls, 8);
    assert_eq!(h.health_check(), (true, "ok — 8 total rolls".to_string()));

    let mut h = roller(6, u64::MAX - 20);
    for count in [7, 0, 100, 1, 12] {
        h.roll_from(9, count, 6);
    }
    assert_eq!(h.total_rolls, 99);

    let mut h = roller(6, u64::MAX);
    assert_eq!(h.roll_from(2, 3, 6), vec![4, 2, 4]);
    assert_eq!(h.total_rolls, 2);
}

#[test]
fn a_roll_is_described() {
    let mut h = roller(6, 0);
    let answer = h.roll_dice_from(1, RollArgs { count: 3, sides: Some(20) }).ok().unwrap();
    assert_eq!(answer.text, "Rolled 3d20: [10, 10, 2] = 22");
    assert_eq!(answer.triggers.results, vec![10, 10, 2]);
    assert_eq!(answer.triggers.sides, 20);
    assert_eq!(answer.triggers.asked, 0);
    assert_eq!(h.total_rolls, 3);
}

#[test]
fn an_unnamed_number_of_sides_is_the_configured_one() {
    let named = RollArgs { count: 1, sides: Some(4) };
    let unnamed = RollArgs { count: 1, sides: None };
    let a = roller(4, 9).roll_dice_from(5, named).ok().unwrap();
    let b = roller(4, 9).roll_dice_from(5, unnamed).ok().unwrap();
    assert_eq!(a.text, b.text);
    let c = roller(6, 0).roll_dice_from(5, unnamed).ok().unwrap();
    assert_eq!(c.text, "Rolled 1d6: [4] = 4");
}

#[test]
fn counts_and_sides_are_kept_within_limits() {
    let mut h = roller(6, 0);
    let answer = h.roll_dice_from(5, RollArgs { count: 0, sides: Some(4) }).ok().unwrap();
    assert_eq!(answer.text, "Rolled 1d4: [2] = 2");
    let answer = h.roll_dice_from(5, RollArgs { count: 5000, sides: Some(u32::MAX) }).ok().unwrap();
    assert!(answer.text.starts_with("Rolled 100d1000: ["), "{}", answer.text);
    assert_eq!(answer.triggers.results.len(), 100);
    assert_eq!(h.total_rolls, 101);
}

#[test]
fn too_few_sides_are_refused() {
    for (default_sides, sides) in [(6, Some(0)), (6, Some(1)), (0, None), (1, None)] {
        let mut h = roller(default_sides, 3);
        let a = RollArgs { count: 2, sides };
        let refusal = Err(ToolError::BadArguments("sides must be >= 2".to_string()));
        assert_eq!(h.roll_dice_from(5, a).map(|_| ()), refusal);
        assert_eq!(h.roll_dice(a).unwrap().map(|_| ()), refusal);
        assert_eq!(h.requested_dice(a).map(|_| ()), refusal);
        assert_eq!(h, roller(default_sides, 3));
    }
}

#[test]
fn coins_are_flipped() {
    let mut h = roller(6, 0);
    assert_eq!(
        h.coin_flip_from(7, FlipArgs { count: 5 }),
        Ok("Flipped 5 coins: [Tails, Tails, Tails, Tails, Tails]".to_string()),
    );
    assert_eq!(h.coin_flip_from(7, FlipArgs { count: 1 }), Ok("Flipped a coin: Heads".to_string()));
    assert_eq!(h.total_rolls, 6);
    let mut h = roller(6, 0);
    assert_eq!(h.coin_flip_from(1, FlipArgs { count: 0 }), Ok("Flipped a coin: Tails".to_string()));
    assert_eq!(h.total_rolls, 1);
    let text = h.coin_flip(FlipArgs { count: 1000 }).unwrap().unwrap();
    assert!(text.starts_with("Flipped 100 coins: ["), "{text}");
    assert_eq!(text.matches("Heads").count() + text.matches("Tails").count(), 100);
    assert_eq!(h.total_rolls, 101);
}

#[test]
fn the_clock_seeds_a_roll() {
    let mut h = roller(6, 0);
    let results = h.roll(100, 1000).unwrap();
    assert_eq!(results.len(), 100);
    assert!(results.iter().all(|v| (1..=1000).contains(v)));
    assert!(dice_roller::clock::seed().unwrap() < 1_000_000_000);
    // One of two readings of the clock differs from a fixed number.
    let readings: Vec<u32> = (0..1000).map(|_| dice_roller::clock::seed().unwrap()).collect();
    assert!(readings.iter().any(|r| *r != readings[0]));
}

#[test]
fn a_point_in_time_gives_its_nanoseconds() {
    let epoch = std::time::SystemTime::UNIX_EPOCH;
    let at = |seconds: u64, nanos: u32| seed_at(epoch + std::time::Duration::new(seconds, nanos));
    assert_eq!(seed_at(epoch), Some(0));
    assert_eq!(at(0, 999_999_999), Some(999_999_999));
    assert_eq!(at(1_700_000_000, 123_456_700), Some(123_456_700));
    assert_eq!(at(5, 0), Some(0));
    assert_eq!(seed_at(epoch - std::time::Duration::new(1, 0)), None);
    assert_eq!(seed_at(epoch - std::time::Duration::new(0, 1_000)), None);
}

#[test]
fn an_action_is_described_without_a_prefix() {
    let mut h = roller(6, 0);
    let answer = h
        .execute_action_from(999999999, "roll_dice", "{\"dice_notation\":\" 2D10 \"}")
        .ok()
        .unwrap();
    assert_eq!(answer.text, "2d10: [2, 5] = 7");
    assert_eq!(h.total_rolls, 2);
    assert_eq!(h.roll_answer("", 1, 3, 20).text, roller(6, 2).roll_answer("", 1, 3, 20).text);
}

#[test]
fn an_answer_starts_with_the_notation_of_its_roll() {
    for (count, sides) in [(1, 2), (2, 10), (100, 1000)] {
        let answer = roller(6, 0).roll_answer("", 3, count, sides);
        let notation = answer.text.split(':').next().unwrap().to_string();
        assert_eq!(roller(6, 0).parse_notation(&notation), (count, sides));
    }
}

#[test]
fn an_action_without_sides_falls_back() {
    let params = "{\"dice_notation\":\"nonsense\"}";
    let mut h = roller(0, 3);
    let text = h.execute_action("roll_dice", params).unwrap().ok().unwrap().text;
    assert!(text.starts_with("1d2: "), "{text}");
    assert_eq!(h, roller(0, 4));
    assert_eq!(h.parse_notation("nonsense"), (1, 0));
    assert_eq!(h.requested_action("roll_dice", params), Ok((1, 2)));
    let answer = roller(0, 0).execute_action_from(1, "roll_dice", params).ok().unwrap();
    assert_eq!(answer.text, "1d2: [2] = 2");
    assert_eq!(answer.triggers.sides, 2);
    // A configured number of sides is taken as it is, but for none.
    assert_eq!(roller(1, 0).requested_action("roll_dice", params), Ok((1, 1)));
    assert_eq!(roller(u32::MAX, 0).requested_action("roll_dice", params), Ok((1, u32::MAX)));
    // With a `d` there are always two sides at least.
    let text = h.execute_action("roll_dice", "{\"dice_notation\":\"d\"}").unwrap().ok().unwrap().text;
    assert!(text.starts_with("1d2: "), "{text}");
}

#[test]
fn one_is_the_default_count() {
    assert_eq!(one(), 1);
}

#[test]
fn new_settings_keep_the_tally() {
    let mut h = roller(6, 17);
    h.on_config(DiceConfig { default_sides: 12 });
    assert_eq!(h, roller(12, 17));
    assert_eq!(config_message(&h.config), "config: default_sides = 12");
    assert_eq!(DiceRoller::default(), roller(6, 0));
}

#[test]
fn numbers_are_printed() {
    for n in [0, 7, 9, 10, 19, 100, 4294967295, u64::MAX] {
        assert_eq!(decimal_text(n), n.to_string());
    }
}

#[test]
fn lists_are_printed() {
    for values in [vec![], vec![5], vec![3, 1, 6], vec![10, 100, 1000]] {
        let mut out = "> ".to_string();
        push_list(&mut out, &values);
        assert_eq!(out, format!("> {values:?}"));
    }
    assert_eq!(join(&vec!["a", "b", "c"], ", "), "a, b, c");
    assert_eq!(join(&vec![], ", "), "");
    assert_eq!(sum(&vec![3, 1, 6]), 10);
    assert_eq!(sum(&vec![]), 0);
}
