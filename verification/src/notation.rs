//! Dice notation, as in `3d6`, `d20` or ` 2D10 `.
//!
//! A notation is read without regard to case or surrounding white space. What
//! stands before its first `d` says how many dice, what stands behind it how many
//! sides; what does not read as a number is replaced, never refused.
use vstd::prelude::*;

verus! {

/// The fewest and the most dice of one roll.
pub const MIN_COUNT: u32 = 1;

pub const MAX_COUNT: u32 = 100;

/// The fewest and the most sides of a die that a notation or a request names.
pub const MIN_SIDES: u32 = 2;

pub const MAX_SIDES: u32 = 1000;

/// Unicode's White_Space property.
pub open spec fn white_space(c: char) -> bool {
    let code = c as u32;
    ||| 0x09 <= code <= 0x0d
    ||| code == 0x20
    ||| code == 0x85
    ||| code == 0xa0
    ||| code == 0x1680
    ||| 0x2000 <= code <= 0x200a
    ||| code == 0x2028
    ||| code == 0x2029
    ||| code == 0x202f
    ||| code == 0x205f
    ||| code == 0x3000
}

/// The text without the white space at its two ends.
pub open spec fn trimmed(text: Seq<char>) -> Seq<char>
    decreases text.len(),
{
    if text.len() > 0 && white_space(text[0]) {
        trimmed(text.drop_first())
    } else if text.len() > 0 && white_space(text.last()) {
        trimmed(text.drop_last())
    } else {
        text
    }
}

/// Whether every character is one of the 128 of ASCII.
pub open spec fn all_ascii(text: Seq<char>) -> bool {
    forall|i: int| 0 <= i < text.len() ==> #[trigger] text[i] as u32 <= 0x7f
}

/// The lower case of an ASCII character.
pub open spec fn ascii_lower(c: char) -> char {
    if 'A' <= c && c <= 'Z' {
        (c as u32 + 32) as char
    } else {
        c
    }
}

/// The lower case of an ASCII text.
pub open spec fn ascii_lowercase(text: Seq<char>) -> Seq<char> {
    text.map_values(|c: char| ascii_lower(c))
}

/// Whether a text holds a `d`, in either case.
pub open spec fn has_d(text: Seq<char>) -> bool {
    text.contains('d') || text.contains('D')
}

/// What `str::to_lowercase` makes of a text.
pub uninterp spec fn lowercase(text: Seq<char>) -> Seq<char>;

/// `str::trim` takes the white space, in the sense of Unicode's White_Space, off
/// both ends of a string.
pub assume_specification[ str::trim ](text: &str) -> (r: &str)
    ensures
        r@ == trimmed(text@),
;

/// `str::to_lowercase` maps a string to its lower case as Unicode defines it. Of
/// a string of ASCII characters that is the letters `A` to `Z` replaced by `a` to
/// `z`. Of any other nothing is stated but that the string determines it, and that a
/// `d` or a `D` leaves a `d`.
pub assume_specification[ str::to_lowercase ](text: &str) -> (r: String)
    ensures
        r@ == lowercase(text@),
        all_ascii(text@) ==> r@ == ascii_lowercase(text@),
        has_d(text@) ==> r@.contains('d'),
;

/// `str::split_once` splits a string at the first occurrence of a character and
/// leaves that character out; it returns `None` where there is none.
#[verifier::external_body]
fn split_once<'a>(text: &'a str, at: char) -> (r: Option<(&'a str, &'a str)>)
    ensures
        match r {
            Some((before, behind)) => text@ == before@ + seq![at] + behind@ && !before@.contains(
                at,
            ),
            None => !text@.contains(at),
        },
{
    text.split_once(at)
}

/// Whether a character is one of the ten decimal digits.
pub open spec fn is_digit(c: char) -> bool {
    '0' <= c && c <= '9'
}

/// The number that a row of decimal digits stands for.
pub open spec fn digits_value(digits: Seq<char>) -> nat
    decreases digits.len(),
{
    if digits.len() == 0 {
        0
    } else {
        digits_value(digits.drop_last()) * 10 + (digits.last() as u32 - 48) as nat
    }
}

/// A text without the plus sign that it may start with.
pub open spec fn unsigned_part(text: Seq<char>) -> Seq<char> {
    if text.len() > 0 && text[0] == '+' {
        text.drop_first()
    } else {
        text
    }
}

/// The 32-bit number that a text reads as: an optional plus sign and at least one
/// decimal digit, nothing else, and no more than fits.
pub open spec fn number(text: Seq<char>) -> Option<u32> {
    let digits = unsigned_part(text);
    if digits.len() > 0 && (forall|i: int|
        0 <= i < digits.len() ==> is_digit(#[trigger] digits[i])) && digits_value(digits)
        <= u32::MAX {
        Some(digits_value(digits) as u32)
    } else {
        None
    }
}

/// `str::parse::<u32>` reads an optional `+` followed by decimal digits only, and
/// fails on anything else and on what does not fit in 32 bits.
#[verifier::external_body]
fn read_number(text: &str) -> (r: Option<u32>)
    ensures
        r == number(text@),
{
    text.parse::<u32>().ok()
}

/// `n`, or the nearer end of the range where it lies outside.
pub open spec fn clamped(n: u32, low: u32, high: u32) -> u32 {
    if n < low {
        low
    } else if n > high {
        high
    } else {
        n
    }
}

/// `n`, or the nearer end of the range where it lies outside.
pub fn clamp(n: u32, low: u32, high: u32) -> (r: u32)
    requires
        low <= high,
    ensures
        r == clamped(n, low, high),
{
    if n < low {
        low
    } else if n > high {
        high
    } else {
        n
    }
}

/// How many dice the text before the `d` asks for.
pub open spec fn count_of(text: Seq<char>) -> u32 {
    clamped(number(text).unwrap_or(1), MIN_COUNT, MAX_COUNT)
}

/// How many sides the text behind the `d` asks for.
pub open spec fn sides_of(text: Seq<char>, default_sides: u32) -> u32 {
    clamped(number(text).unwrap_or(default_sides), MIN_SIDES, MAX_SIDES)
}

/// The count and the sides that a notation in lower case asks for.
pub open spec fn lowered_dice(lowered: Seq<char>, default_sides: u32) -> (u32, u32) {
    if lowered.contains('d') {
        let at = first_index(lowered, 'd');
        (count_of(lowered.take(at)), sides_of(lowered.skip(at + 1), default_sides))
    } else {
        (1, default_sides)
    }
}

/// Where a character occurs first in a text that holds it.
pub open spec fn first_index(text: Seq<char>, c: char) -> int
    decreases text.len(),
{
    if text.len() == 0 || text[0] == c {
        0
    } else {
        1 + first_index(text.drop_first(), c)
    }
}

/// The count and the sides that a notation asks for.
pub open spec fn notation_dice(notation: Seq<char>, default_sides: u32) -> (u32, u32) {
    lowered_dice(lowercase(trimmed(notation)), default_sides)
}

/// The count and the sides that a notation asks for, where it is made of ASCII
/// characters but for the white space around it.
pub open spec fn ascii_notation_dice(notation: Seq<char>, default_sides: u32) -> (u32, u32) {
    lowered_dice(ascii_lowercase(trimmed(notation)), default_sides)
}

/// Whether a count and sides are within the limits of a notation with a `d`.
pub open spec fn within_limits(dice: (u32, u32)) -> bool {
    MIN_COUNT <= dice.0 <= MAX_COUNT && MIN_SIDES <= dice.1 <= MAX_SIDES
}

/// What is known of the reading of a notation, whatever the lower case of characters
/// beyond ASCII: where there are none but white space around it, the reading is fixed,
/// and with a `d` in either case it is within the limits.
pub open spec fn reading_is_known(notation: Seq<char>, default_sides: u32) -> bool {
    let dice = notation_dice(notation, default_sides);
    &&& all_ascii(trimmed(notation)) ==> dice == ascii_notation_dice(notation, default_sides)
    &&& has_d(notation) ==> within_limits(dice)
}

/// Trimming takes off white space only.
proof fn lemma_trimmed_keeps(text: Seq<char>, c: char)
    requires
        text.contains(c),
        !white_space(c),
    ensures
        trimmed(text).contains(c),
    decreases text.len(),
{
    let i = choose|i: int| 0 <= i < text.len() && text[i] == c;
    if white_space(text[0]) {
        assert(text.drop_first()[i - 1] == c);
        lemma_trimmed_keeps(text.drop_first(), c);
    } else if white_space(text.last()) {
        assert(text.drop_last()[i] == c);
        lemma_trimmed_keeps(text.drop_last(), c);
    }
}

/// A text that starts with `before`, then `c`, and holds no earlier `c`, has its
/// first `c` there.
pub proof fn lemma_first_index(before: Seq<char>, c: char, behind: Seq<char>)
    requires
        !before.contains(c),
    ensures
        first_index(before + seq![c] + behind, c) == before.len(),
        (before + seq![c] + behind).contains(c),
    decreases before.len(),
{
    let text = before + seq![c] + behind;
    assert(text[before.len() as int] == c);
    if before.len() > 0 {
        assert(before[0] != c);
        assert(text.drop_first() =~= before.drop_first() + seq![c] + behind);
        assert(!before.drop_first().contains(c)) by {
            if before.drop_first().contains(c) {
                let i = choose|i: int|
                    0 <= i < before.drop_first().len() && before.drop_first()[i] == c;
                assert(before[i + 1] == c);
            }
        }
        lemma_first_index(before.drop_first(), c, behind);
    }
}

/// A notation with a `d` asks for 1 to 100 dice of 2 to 1000 sides, whatever stands
/// around the `d` and whatever the user configured; one without asks for a single
/// die of as many sides as the user configured.
pub proof fn notation_is_within_limits(lowered: Seq<char>, default_sides: u32)
    ensures
        lowered.contains('d') ==> within_limits(lowered_dice(lowered, default_sides)),
        !lowered.contains('d') ==> lowered_dice(lowered, default_sides) == (1u32, default_sides),
{
}

/// Reads a notation that is in lower case already.
pub fn parse_lowered(lowered: &str, default_sides: u32) -> (dice: (u32, u32))
    ensures
        dice == lowered_dice(lowered@, default_sides),
{
    match split_once(lowered, 'd') {
        Some((before, behind)) => {
            proof {
                lemma_first_index(before@, 'd', behind@);
                let at = before@.len() as int;
                assert(lowered@.take(at) =~= before@);
                assert(lowered@.skip(at + 1) =~= behind@);
            }
            let count: u32 = if before.is_empty() {
                1
            } else {
                read_number(before).unwrap_or(1)
            };
            let sides: u32 = read_number(behind).unwrap_or(default_sides);
            (clamp(count, MIN_COUNT, MAX_COUNT), clamp(sides, MIN_SIDES, MAX_SIDES))
        },
        None => (1, default_sides),
    }
}

/// Reads a notation: how many dice, and how many sides each.
pub fn parse(notation: &str, default_sides: u32) -> (dice: (u32, u32))
    ensures
        dice == notation_dice(notation@, default_sides),
        reading_is_known(notation@, default_sides),
{
    proof {
        if notation@.contains('d') {
            lemma_trimmed_keeps(notation@, 'd');
        }
        if notation@.contains('D') {
            lemma_trimmed_keeps(notation@, 'D');
        }
    }
    let lowered = notation.trim().to_lowercase();
    parse_lowered(lowered.as_str(), default_sides)
}

} // verus!
