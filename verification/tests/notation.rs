//! Dice notation, with what it forgives.
use dice_roller::notation::{clamp, parse, parse_lowered};
use dice_roller::roller::{DiceConfig, DiceRoller};

#[test]
fn notations_are_read() {
    for (notation, dice) in [
        ("3d6", (3, 6)),
        ("d20", (1, 20)),
        ("2d10", (2, 10)),
        ("4D6", (4, 6)),
        ("D20", (1, 20)),
        ("\t D20 ", (1, 20)),
        ("  2d10\t\n", (2, 10)),
        ("\u{3000}2d10\u{85}", (2, 10)),
        ("+2d+10", (2, 10)),
        ("007d0020", (7, 20)),
    ] {
        assert_eq!(parse(notation, 8), dice, "{notation:?}");
    }
}

#[test]
fn what_is_no_number_is_replaced() {
    for (notation, dice) in [
        ("", (1, 8)),
        ("   ", (1, 8)),
        ("nonsense", (1, 8)),
        ("20", (1, 8)),
        ("d", (1, 8)),
        ("2d", (2, 8)),
        ("xd4", (1, 4)),
        ("2dx", (2, 8)),
        ("2d6d8", (2, 8)),
        ("2 d6", (1, 6)),
        ("2d 6", (2, 8)),
        ("-2d6", (1, 6)),
        ("2d-6", (2, 8)),
        ("++2d6", (1, 6)),
        ("+d6", (1, 6)),
        ("4294967295d4294967295", (100, 1000)),
        ("4294967296d4294967296", (1, 8)),
        ("\u{662}d6", (1, 6)),
        ("2\u{1c4}6", (1, 8)),
    ] {
        assert_eq!(parse(notation, 8), dice, "{notation:?}");
    }
}

#[test]
fn a_notation_with_a_d_is_kept_within_limits() {
    assert_eq!(parse("0d1", 8), (1, 2));
    assert_eq!(parse("101d1001", 8), (100, 1000));
    assert_eq!(parse("d", 0), (1, 2));
    assert_eq!(parse("d", u32::MAX), (1, 1000));
    for text in ["\u{130}d\u{3a3}", "\u{1e9e}D0", "\u{212a}d9999"] {
        let (count, sides) = parse(text, 0);
        assert!((1..=100).contains(&count) && (2..=1000).contains(&sides), "{text:?}");
    }
}

#[test]
fn a_notation_without_a_d_takes_the_configured_sides_as_they_are() {
    assert_eq!(parse("x", 0), (1, 0));
    assert_eq!(parse("x", 1), (1, 1));
    assert_eq!(parse("x", u32::MAX), (1, u32::MAX));
}

#[test]
fn every_notation_within_the_limits_is_read_back() {
    for count in 1..=100 {
        for sides in 2..=1000 {
            assert_eq!(parse(&format!("{count}d{sides}"), 8), (count, sides));
        }
    }
}

/// Unicode's White_Space, and nothing else, is taken off; and no character but `d`
/// and `D` has a `d` in its lower case.
#[test]
fn every_character_before_and_behind_a_notation() {
    for c in '\0'..=char::MAX {
        let white = matches!(c as u32,
            0x09..=0x0d | 0x20 | 0x85 | 0xa0 | 0x1680 | 0x2000..=0x200a | 0x2028 | 0x2029
            | 0x202f | 0x205f | 0x3000);
        let before = match c {
            '0'..='9' => (c as u32 - 48) * 10 + 2,
            '+' => 2,
            'd' | 'D' => 1,
            _ if white => 2,
            _ => 1,
        };
        let sides = if c == 'd' || c == 'D' { 8 } else { 4 };
        assert_eq!(parse(&format!("{c}2d4"), 8), (before.clamp(1, 100), sides), "{c:?}");
        let behind = match c {
            '0'..='9' => 40 + (c as u32 - 48),
            _ if white => 4,
            _ => 8,
        };
        assert_eq!(parse(&format!("2d4{c}"), 8), (2, behind), "{c:?}");
    }
}

#[test]
fn white_space_and_case_make_no_difference() {
    for notation in ["3d6", "d20", "x", "12d999", ""] {
        let wanted = parse(notation, 8);
        assert_eq!(parse(&format!(" \u{2003}{notation}\r\n"), 8), wanted);
        assert_eq!(parse(&notation.to_uppercase(), 8), wanted);
    }
}

#[test]
fn a_lowered_notation_is_not_trimmed() {
    assert_eq!(parse_lowered("2d10", 8), (2, 10));
    assert_eq!(parse_lowered("2D10", 8), (1, 8));
    assert_eq!(parse_lowered(" 2d10 ", 8), (1, 8));
}

#[test]
fn the_roller_reads_with_its_settings() {
    let mut roller = DiceRoller::default();
    assert_eq!(roller.parse_notation("x"), (1, 6));
    roller.on_config(DiceConfig { default_sides: 12 });
    assert_eq!(roller.parse_notation("3d"), (3, 12));
}

#[test]
fn numbers_are_clamped() {
    assert_eq!((clamp(0, 1, 100), clamp(7, 1, 100), clamp(101, 1, 100)), (1, 7, 100));
}
