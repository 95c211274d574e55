//! What holds of the library as a whole.
use crate::editor::roll_action;
use crate::editor::roll_trigger;
use crate::generator::dice_are_in_range;
use crate::generator::start_state;
use crate::json::payload_members;
use crate::json::string_member;
use crate::json::Members;
use crate::json::Reading;
use crate::notation::all_ascii;
use crate::notation::ascii_lower;
use crate::notation::ascii_lowercase;
use crate::notation::ascii_notation_dice;
use crate::notation::clamped;
use crate::notation::count_of;
use crate::notation::digits_value;
use crate::notation::is_digit;
use crate::notation::lemma_first_index;
use crate::notation::lowercase;
use crate::notation::lowered_dice;
use crate::notation::notation_dice;
use crate::notation::number;
use crate::notation::reading_is_known;
use crate::notation::sides_of;
use crate::notation::trimmed;
use crate::notation::unsigned_part;
use crate::notation::white_space;
use crate::notation::MAX_COUNT;
use crate::notation::MAX_SIDES;
use crate::notation::MIN_COUNT;
use crate::notation::MIN_SIDES;
use crate::roller::action_notation;
use crate::roller::coin_labels;
use crate::roller::tally;
use crate::roller::tally_after;
use crate::roller::DiceConfig;
use crate::roller::DiceRoller;
use crate::roller::RollArgs;
use crate::roller::ToolErrorView;
use crate::roller::DEFAULT_NOTATION;
use crate::text::decimal;
use crate::text::decimals;
use crate::text::digit;
use crate::text::joined;
use crate::text::list_text;
use crate::text::roll_text;
use crate::text::total;
use crate::triggers::fire_call;
use vstd::prelude::*;

verus! {

/// Whether every character is a decimal digit.
pub open spec fn all_digits(text: Seq<char>) -> bool {
    forall|i: int| 0 <= i < text.len() ==> is_digit(#[trigger] text[i])
}

/// Whether every character is white space.
pub open spec fn all_white_space(text: Seq<char>) -> bool {
    forall|i: int| 0 <= i < text.len() ==> white_space(#[trigger] text[i])
}

/// A number in decimal is at least one digit, and the digits stand for the number.
pub proof fn decimal_is_digits(n: nat)
    ensures
        decimal(n).len() > 0,
        all_digits(decimal(n)),
        digits_value(decimal(n)) == n,
    decreases n,
{
    reveal_with_fuel(digits_value, 2);
    if n < 10 {
        assert(decimal(n) =~= seq![digit(n)]);
        assert(decimal(n).drop_last() =~= seq![]);
    } else {
        decimal_is_digits(n / 10);
        assert(decimal(n).drop_last() =~= decimal(n / 10));
    }
}

/// A number that is printed in decimal is read back.
pub proof fn decimal_reads_back(n: u32)
    ensures
        number(decimal(n as nat)) == Some(n),
{
    decimal_is_digits(n as nat);
    assert(decimal(n as nat)[0] != '+');
    assert(unsigned_part(decimal(n as nat)) == decimal(n as nat));
}

/// No two numbers are printed alike.
pub proof fn decimal_is_injective(a: nat, b: nat)
    requires
        decimal(a) == decimal(b),
    ensures
        a == b,
{
    decimal_is_digits(a);
    decimal_is_digits(b);
}

/// White space behind a text makes no difference to what trimming leaves.
proof fn lemma_trimmed_push(text: Seq<char>, c: char)
    requires
        white_space(c),
    ensures
        trimmed(text.push(c)) == trimmed(text),
    decreases text.len(),
{
    if text.len() == 0 {
        assert(text.push(c).drop_first() =~= text);
    } else if white_space(text[0]) {
        lemma_trimmed_push(text.drop_first(), c);
        assert(text.push(c).drop_first() =~= text.drop_first().push(c));
    } else {
        assert(text.push(c).drop_last() =~= text);
    }
}

/// White space around a text makes no difference to what trimming leaves.
proof fn lemma_trimmed_around(before: Seq<char>, text: Seq<char>, behind: Seq<char>)
    requires
        all_white_space(before),
        all_white_space(behind),
    ensures
        trimmed(before + text + behind) == trimmed(text),
    decreases before.len() + behind.len(),
{
    let whole = before + text + behind;
    if behind.len() > 0 {
        assert(whole =~= (before + text + behind.drop_last()).push(behind.last()));
        lemma_trimmed_push(before + text + behind.drop_last(), behind.last());
        lemma_trimmed_around(before, text, behind.drop_last());
    } else if before.len() > 0 {
        assert(whole[0] == before[0]);
        assert(whole.drop_first() =~= before.drop_first() + text + behind);
        assert(all_white_space(before.drop_first())) by {
            assert forall|i: int| 0 <= i < before.drop_first().len() implies white_space(
                #[trigger] before.drop_first()[i],
            ) by {
                assert(white_space(before[i + 1]));
            }
        }
        lemma_trimmed_around(before.drop_first(), text, behind);
    } else {
        assert(whole =~= text);
    }
}

/// White space around a notation makes no difference to what it asks for.
pub proof fn white_space_around_a_notation_is_ignored(
    before: Seq<char>,
    notation: Seq<char>,
    behind: Seq<char>,
    default_sides: u32,
)
    requires
        all_white_space(before),
        all_white_space(behind),
    ensures
        notation_dice(before + notation + behind, default_sides) == notation_dice(
            notation,
            default_sides,
        ),
        ascii_notation_dice(before + notation + behind, default_sides) == ascii_notation_dice(
            notation,
            default_sides,
        ),
{
    lemma_trimmed_around(before, notation, behind);
}

/// Trimming takes off the white space around a text and nothing else.
pub proof fn trimming_leaves_the_core(before: Seq<char>, core: Seq<char>, behind: Seq<char>)
    requires
        all_white_space(before),
        all_white_space(behind),
        core.len() > 0 ==> !white_space(core[0]) && !white_space(core.last()),
    ensures
        trimmed(before + core + behind) == core,
{
    lemma_trimmed_around(before, core, behind);
}

/// The lower case of an ASCII text differs from it in the letters from `A` to `Z`
/// alone, which it replaces by those 32 behind them.
pub proof fn lower_case_moves_capitals(text: Seq<char>)
    ensures
        ascii_lowercase(text).len() == text.len(),
        forall|i: int|
            0 <= i < text.len() ==> #[trigger] ascii_lowercase(text)[i] as u32 == if 65 <= text[i]
                as u32 <= 90 {
                text[i] as u32 + 32
            } else {
                text[i] as int
            },
{
}

/// A row of digits is read from the left, each worth ten times the next.
pub proof fn digits_are_read_from_the_left(digits: Seq<char>)
    requires
        all_digits(digits),
    ensures
        digits_value(digits) == digits.fold_left(
            0int,
            |value: int, c: char| 10 * value + (c as u32 - 48),
        ),
    decreases digits.len(),
{
    if digits.len() > 0 {
        assert(is_digit(digits[digits.len() - 1]));
        assert(all_digits(digits.drop_last())) by {
            assert forall|i: int| 0 <= i < digits.drop_last().len() implies is_digit(
                #[trigger] digits.drop_last()[i],
            ) by {
                assert(is_digit(digits[i]));
            }
        }
        digits_are_read_from_the_left(digits.drop_last());
    }
}

/// Digits that stand for a number of 32 bits read as that number, with a plus sign
/// before them or not; digits that stand for more, and no digits, read as none.
pub proof fn digits_read_as_their_number(digits: Seq<char>)
    requires
        all_digits(digits),
    ensures
        number(digits) == number(seq!['+'] + digits),
        number(digits) is Some <==> digits.len() > 0 && digits_value(digits) <= u32::MAX,
        number(digits) matches Some(n) ==> n == digits_value(digits),
{
    let signed = seq!['+'] + digits;
    assert(signed.drop_first() =~= digits);
    if digits.len() > 0 {
        assert(is_digit(digits[0]));
    }
    assert(unsigned_part(digits) == digits);
    assert(unsigned_part(signed) == digits);
}

/// What holds a character that is no digit reads as no number, but for a plus sign at
/// its start.
pub proof fn other_characters_read_as_none(text: Seq<char>, i: int)
    requires
        0 <= i < text.len(),
        !is_digit(text[i]),
        i == 0 ==> text[i] != '+',
    ensures
        number(text) is None,
{
    let digits = unsigned_part(text);
    if text[0] == '+' {
        assert(digits[i - 1] == text[i]);
    } else {
        assert(digits[i] == text[i]);
    }
}

/// A number within a range is kept, and one outside is replaced by the nearer end.
pub proof fn clamped_is_the_nearest(n: u32, low: u32, high: u32, other: u32)
    requires
        low <= high,
        low <= other <= high,
    ensures
        low <= clamped(n, low, high) <= high,
        low <= n <= high ==> clamped(n, low, high) == n,
        vstd::math::abs(clamped(n, low, high) - n) <= vstd::math::abs(other - n),
{
}

/// The first `d` of a notation in lower case parts its count from its sides. The count
/// is cut to 1 to 100, and is one where it is no number; the sides are cut to 2 to 1000,
/// and are the configured ones where they are no number.
pub proof fn first_d_parts_a_notation(left: Seq<char>, right: Seq<char>, default_sides: u32)
    requires
        !left.contains('d'),
    ensures
        ({
            let (count, sides) = lowered_dice(left + seq!['d'] + right, default_sides);
            let named = match number(right) {
                Some(n) => n,
                None => default_sides,
            };
            &&& 1 <= count <= 100
            &&& 2 <= sides <= 1000
            &&& number(left) is None ==> count == 1
            &&& number(left) matches Some(n) ==> {
                &&& 1 <= n <= 100 ==> count == n
                &&& n < 1 ==> count == 1
                &&& n > 100 ==> count == 100
            }
            &&& 2 <= named <= 1000 ==> sides == named
            &&& named < 2 ==> sides == 2
            &&& named > 1000 ==> sides == 1000
        }),
{
    let lowered = left + seq!['d'] + right;
    lemma_first_index(left, 'd', right);
    assert(lowered.take(left.len() as int) =~= left);
    assert(lowered.skip(left.len() as int + 1) =~= right);
}

/// A notation asks for what its lower case without the white space around it asks for.
pub proof fn notation_is_read_trimmed_and_lowered(
    notation: Seq<char>,
    lowered: Seq<char>,
    default_sides: u32,
)
    ensures
        lowercase(trimmed(notation)) == lowered ==> notation_dice(notation, default_sides)
            == lowered_dice(lowered, default_sides),
        ascii_lowercase(trimmed(notation)) == lowered ==> ascii_notation_dice(
            notation,
            default_sides,
        ) == lowered_dice(lowered, default_sides),
{
}

/// What is known of the reading of a notation: of ASCII characters, but for the white
/// space around them, it is the one that ASCII letters have; with a `d` in either case
/// it is 1 to 100 dice of 2 to 1000 sides.
pub proof fn known_reading_is_exact(notation: Seq<char>, default_sides: u32)
    requires
        reading_is_known(notation, default_sides),
    ensures
        (forall|i: int|
            0 <= i < trimmed(notation).len() ==> #[trigger] trimmed(notation)[i] as u32 <= 0x7f)
            ==> notation_dice(notation, default_sides) == ascii_notation_dice(
            notation,
            default_sides,
        ),
        notation.contains('d') || notation.contains('D') ==> 1 <= notation_dice(
            notation,
            default_sides,
        ).0 <= 100 && 2 <= notation_dice(notation, default_sides).1 <= 1000,
{
}

/// Trimming and lower case can change places.
proof fn lemma_trimmed_lowercase(text: Seq<char>)
    ensures
        trimmed(ascii_lowercase(text)) == ascii_lowercase(trimmed(text)),
    decreases text.len(),
{
    let lowered = ascii_lowercase(text);
    if text.len() > 0 {
        assert(white_space(lowered[0]) == white_space(text[0]));
        assert(white_space(lowered.last()) == white_space(text.last()));
        if white_space(text[0]) {
            lemma_trimmed_lowercase(text.drop_first());
            assert(lowered.drop_first() =~= ascii_lowercase(text.drop_first()));
        } else if white_space(text.last()) {
            lemma_trimmed_lowercase(text.drop_last());
            assert(lowered.drop_last() =~= ascii_lowercase(text.drop_last()));
        }
    }
}

/// Two notations that differ in the case of ASCII letters alone ask for the same.
pub proof fn case_of_a_notation_is_ignored(a: Seq<char>, b: Seq<char>, default_sides: u32)
    requires
        ascii_lowercase(a) == ascii_lowercase(b),
    ensures
        ascii_notation_dice(a, default_sides) == ascii_notation_dice(b, default_sides),
{
    lemma_trimmed_lowercase(a);
    lemma_trimmed_lowercase(b);
}

/// Digits, a `d` in either case, and digits again, with white space around them or
/// not: what stands before the `d` is read as the count, what stands behind it as the
/// sides.
proof fn lemma_digits_around_d(
    before: Seq<char>,
    left: Seq<char>,
    d: char,
    right: Seq<char>,
    behind: Seq<char>,
    default_sides: u32,
)
    requires
        all_white_space(before),
        all_white_space(behind),
        all_digits(left),
        d == 'd' || d == 'D',
        all_digits(right),
        right.len() > 0,
    ensures
        ({
            let notation = before + (left + seq![d] + right) + behind;
            &&& all_ascii(trimmed(notation))
            &&& ascii_notation_dice(notation, default_sides) == (
                count_of(left),
                sides_of(right, default_sides),
            )
        }),
{
    let core = left + seq![d] + right;
    let lowered = left + seq!['d'] + right;
    lemma_trimmed_around(before, core, behind);
    if left.len() > 0 {
        assert(is_digit(left[0]) && core[0] == left[0]);
    }
    assert(is_digit(right[right.len() - 1]) && core.last() == right[right.len() - 1]);
    assert(trimmed(core) == core);
    assert forall|i: int| 0 <= i < core.len() implies #[trigger] core[i] as u32 <= 0x7f by {
        if i < left.len() {
            assert(core[i] == left[i]);
        } else if i > left.len() {
            assert(core[i] == right[i - left.len() - 1]);
        }
    }
    assert(ascii_lowercase(core) =~= lowered) by {
        assert forall|i: int| 0 <= i < core.len() implies #[trigger] ascii_lower(core[i])
            == lowered[i] by {
            if i < left.len() {
                assert(is_digit(left[i]));
            } else if i > left.len() {
                assert(is_digit(right[i - left.len() - 1]));
            }
        }
    }
    assert(!left.contains('d')) by {
        if left.contains('d') {
            let i = choose|i: int| 0 <= i < left.len() && left[i] == 'd';
            assert(is_digit(left[i]));
        }
    }
    lemma_first_index(left, 'd', right);
    assert(lowered.take(left.len() as int) =~= left);
    assert(lowered.skip(left.len() as int + 1) =~= right);
}

/// A notation within the limits asks for what it says: a count, a `d` in either
/// case, and the sides, in decimal, with white space around it or not. All but the
/// white space is ASCII.
pub proof fn notation_means_what_it_says(
    before: Seq<char>,
    count: u32,
    d: char,
    sides: u32,
    behind: Seq<char>,
    default_sides: u32,
)
    requires
        all_white_space(before),
        all_white_space(behind),
        MIN_COUNT <= count <= MAX_COUNT,
        d == 'd' || d == 'D',
        MIN_SIDES <= sides <= MAX_SIDES,
    ensures
        ({
            let notation = before + (decimal(count as nat) + seq![d] + decimal(sides as nat))
                + behind;
            &&& all_ascii(trimmed(notation))
            &&& ascii_notation_dice(notation, default_sides) == (count, sides)
        }),
{
    let left = decimal(count as nat);
    let right = decimal(sides as nat);
    decimal_is_digits(count as nat);
    decimal_is_digits(sides as nat);
    decimal_reads_back(count);
    decimal_reads_back(sides);
    lemma_digits_around_d(before, left, d, right, behind, default_sides);
}

/// A notation that starts with its `d`, in either case and with white space around it
/// or not, asks for one die.
pub proof fn omitted_count_is_one(
    before: Seq<char>,
    d: char,
    sides: u32,
    behind: Seq<char>,
    default_sides: u32,
)
    requires
        all_white_space(before),
        all_white_space(behind),
        d == 'd' || d == 'D',
        MIN_SIDES <= sides <= MAX_SIDES,
    ensures
        ({
            let notation = before + (seq![d] + decimal(sides as nat)) + behind;
            &&& all_ascii(trimmed(notation))
            &&& ascii_notation_dice(notation, default_sides) == (1u32, sides)
        }),
{
    let none = Seq::<char>::empty();
    let right = decimal(sides as nat);
    decimal_is_digits(sides as nat);
    decimal_reads_back(sides);
    lemma_digits_around_d(before, none, d, right, behind, default_sides);
    assert(none + seq![d] + right =~= seq![d] + right);
}

/// The answer to an action starts with a notation that asks for the roll that was
/// made.
pub proof fn answer_names_its_roll(
    roller: DiceRoller,
    seed: u32,
    count: u32,
    sides: u32,
    default_sides: u32,
)
    requires
        MIN_COUNT <= count <= MAX_COUNT,
        MIN_SIDES <= sides <= MAX_SIDES,
    ensures
        exists|notation: Seq<char>, rest: Seq<char>|
            roller.answer(""@, seed, count, sides).text == #[trigger] (notation + rest)
                && ascii_notation_dice(notation, default_sides) == (count, sides),
{
    reveal_strlit("");
    reveal_strlit("d");
    let none = Seq::<char>::empty();
    let notation = decimal(count as nat) + seq!['d'] + decimal(sides as nat);
    let results = roller.faces(seed, count, sides);
    let rest = ": "@ + list_text(results) + " = "@ + decimal(total(results));
    notation_means_what_it_says(none, count, 'd', sides, none, default_sides);
    assert(none + notation + none =~= notation);
    assert("d"@ =~= seq!['d']);
    assert(""@ + roll_text(count, sides, results) =~= notation + rest);
}

/// The joined decimals of a list of two or more end in a separator and the last.
proof fn lemma_joined_digits(values: Seq<u32>)
    requires
        values.len() > 0,
    ensures
        joined(decimals(values), ", "@) == if values.len() == 1 {
            decimal(values[0] as nat)
        } else {
            joined(decimals(values.drop_last()), ", "@) + ", "@ + decimal(values.last() as nat)
        },
{
    assert(decimals(values).drop_last() =~= decimals(values.drop_last()));
}

/// No two lists are joined alike.
proof fn lemma_joined_injective(a: Seq<u32>, b: Seq<u32>)
    requires
        joined(decimals(a), ", "@) == joined(decimals(b), ", "@),
    ensures
        a == b,
    decreases a.len(),
{
    reveal_strlit(", ");
    let text = joined(decimals(a), ", "@);
    if a.len() == 0 || b.len() == 0 {
        lemma_joined_len(a);
        lemma_joined_len(b);
        assert(a =~= b);
    } else {
        let x = decimal(a.last() as nat);
        let y = decimal(b.last() as nat);
        decimal_is_digits(a.last() as nat);
        decimal_is_digits(b.last() as nat);
        lemma_joined_digits(a);
        lemma_joined_digits(b);
        // The last number starts behind the last blank, if there is one.
        if a.len() > 1 {
            assert(text[text.len() - x.len() - 1] == ' ');
        }
        if b.len() > 1 {
            assert(text[text.len() - y.len() - 1] == ' ');
        }
        if x.len() < y.len() {
            if a.len() > 1 {
                assert(is_digit(y[y.len() - x.len() - 1]));
                assert(text[text.len() - x.len() - 1] == y[y.len() - x.len() - 1]);
            }
        }
        if y.len() < x.len() {
            if b.len() > 1 {
                assert(is_digit(x[x.len() - y.len() - 1]));
                assert(text[text.len() - y.len() - 1] == x[x.len() - y.len() - 1]);
            }
        }
        assert(x.len() == y.len());
        assert(x =~= text.skip(text.len() - x.len()));
        assert(y =~= text.skip(text.len() - y.len()));
        decimal_is_injective(a.last() as nat, b.last() as nat);
        if a.len() > 1 && b.len() > 1 {
            let cut = text.len() - x.len() - 2;
            assert(joined(decimals(a.drop_last()), ", "@) =~= text.take(cut));
            assert(joined(decimals(b.drop_last()), ", "@) =~= text.take(cut));
            lemma_joined_injective(a.drop_last(), b.drop_last());
        }
        assert(a =~= b) by {
            if a.len() > 1 && b.len() > 1 {
                assert(a =~= a.drop_last().push(a.last()));
                assert(b =~= b.drop_last().push(b.last()));
            }
        }
    }
}

/// Only the empty list is joined to nothing.
proof fn lemma_joined_len(values: Seq<u32>)
    ensures
        joined(decimals(values), ", "@).len() == 0 <==> values.len() == 0,
{
    if values.len() > 0 {
        lemma_joined_digits(values);
        decimal_is_digits(values.last() as nat);
    }
}

/// The dice can be read from the list in an answer: no two rolls are listed alike.
pub proof fn list_tells_the_dice(a: Seq<u32>, b: Seq<u32>)
    requires
        list_text(a) == list_text(b),
    ensures
        a == b,
{
    reveal_strlit("[");
    reveal_strlit("]");
    let x = joined(decimals(a), ", "@);
    let y = joined(decimals(b), ", "@);
    assert(x =~= list_text(a).subrange(1, list_text(a).len() - 1));
    assert(y =~= list_text(b).subrange(1, list_text(b).len() - 1));
    lemma_joined_injective(a, b);
}

/// A roll throws as many dice as it was asked for, each of them shows a face from
/// one to its sides, and the tally moves on by as many.
pub proof fn roll_is_what_was_asked_for(roller: DiceRoller, seed: u32, count: u32, sides: u32)
    requires
        sides > 0,
    ensures
        roller.faces(seed, count, sides).len() == count,
        forall|i: int|
            0 <= i < count ==> 1 <= #[trigger] roller.faces(seed, count, sides)[i] <= sides,
        roller.after_roll(count).total_rolls == tally(roller.total_rolls, count),
        roller.after_roll(count).config == roller.config,
{
    dice_are_in_range(start_state(seed, roller.total_rolls), count as nat, sides);
}

/// A coin shows heads or tails, and the answer to a flip names every coin.
pub proof fn coins_show_heads_or_tails(roller: DiceRoller, seed: u32, count: u32)
    ensures
        "Heads"@ != "Tails"@,
        coin_labels(roller.faces(seed, count, 2)).len() == count,
        forall|i: int|
            0 <= i < count ==> #[trigger] coin_labels(roller.faces(seed, count, 2))[i] == if roller.faces(
                seed,
                count,
                2,
            )[i] == 1 {
                "Heads"@
            } else {
                "Tails"@
            },
        forall|i: int|
            0 <= i < count ==> 1 <= #[trigger] roller.faces(seed, count, 2)[i] <= 2,
{
    reveal_strlit("Heads");
    reveal_strlit("Tails");
    assert("Heads"@[0] != "Tails"@[0]);
    roll_is_what_was_asked_for(roller, seed, count, 2);
}

/// The tally counts every die of every roll, modulo two to the 64.
pub proof fn tally_adds_up(total_rolls: u64, counts: Seq<u32>)
    ensures
        tally_after(total_rolls, counts) == (total_rolls + total(counts))
            % 0x1_0000_0000_0000_0000,
    decreases counts.len(),
{
    if counts.len() > 0 {
        tally_adds_up(total_rolls, counts.drop_last());
    }
}

/// A roll that does not name its sides is the roll with the sides that were
/// configured last.
pub proof fn unnamed_sides_are_the_configured_ones(
    config: DiceConfig,
    total_rolls: u64,
    count: u32,
)
    ensures
        ({
            let roller = DiceRoller { config, total_rolls };
            roller.wanted_sides(RollArgs { count, sides: None }) == roller.wanted_sides(
                RollArgs { count, sides: Some(config.default_sides) },
            ) == config.default_sides
        }),
{
}

/// The action that the editor offers is never unknown, and its parameters are
/// refused only where they are no JSON: a notation that makes no sense is replaced,
/// not refused.
pub proof fn offered_action_is_accepted(roller: DiceRoller, params: Reading)
    ensures
        roller.action_dice(roll_action().type_id, params) is Ok <==> params is Ok,
{
}

/// A notation without a `d` makes an action fall back to a single die of as many sides
/// as the user configured, or of two where that is none.
pub proof fn nonsense_falls_back(roller: DiceRoller, members: Members, notation: Seq<char>)
    requires
        string_member(members, roll_action().fields[0].id) == Some(notation),
        !lowercase(trimmed(notation)).contains('d'),
    ensures
        roller.action_dice(roll_action().type_id, Ok(members)) matches Ok(dice) && dice == (
            1u32,
            if roller.config.default_sides == 0 {
                MIN_SIDES
            } else {
                roller.config.default_sides
            },
        ),
{
}

/// Whatever the notation and whatever the user configured, an action that is not
/// refused rolls 1 to 100 dice, each with a side at least.
pub proof fn accepted_action_can_be_rolled(roller: DiceRoller, kind: Seq<char>, params: Reading)
    requires
        roller.action_dice(kind, params) is Ok,
    ensures
        MIN_COUNT <= roller.action_dice(kind, params)->Ok_0.0 <= MAX_COUNT,
        roller.action_dice(kind, params)->Ok_0.1 > 0,
{
}

/// An action without a notation rolls what the editor offers as the default: one die
/// of six sides, whatever the user configured.
pub proof fn omitted_notation_is_the_offered_default(members: Members, default_sides: u32)
    requires
        string_member(members, roll_action().ai_primary_field) is None,
    ensures
        action_notation(roll_action().type_id, Ok(members)) == Ok::<
            _,
            ToolErrorView,
        >(roll_action().fields[0].default_value),
        all_ascii(trimmed(roll_action().fields[0].default_value)),
        ascii_notation_dice(roll_action().fields[0].default_value, default_sides) == (1u32, 6u32),
{
    reveal_strlit("1d6");
    let none = Seq::<char>::empty();
    notation_means_what_it_says(none, 1, 'd', 6, none, default_sides);
    assert(decimal(1) =~= seq!['1']);
    assert(decimal(6) =~= seq!['6']);
    assert(DEFAULT_NOTATION@ =~= none + (decimal(1) + seq!['d'] + decimal(6)) + none);
}

/// The notation of an action is the string in the field that the editor draws first
/// and the assistant fills in.
pub proof fn notation_is_read_from_the_offered_field(members: Members, notation: Seq<char>)
    requires
        string_member(members, roll_action().fields[0].id) == Some(notation),
    ensures
        roll_action().ai_primary_field == roll_action().fields[0].id,
        action_notation(roll_action().type_id, Ok(members)) matches Ok(n) && n == notation,
{
}

/// The trigger that a die fires is the one that the editor is told of.
pub proof fn fired_trigger_is_declared(value: u32, sides: u32)
    ensures
        fire_call(value, sides)->trigger == roll_trigger().type_id,
{
}

/// The payload of a die holds three strings: its value, the roll of one such die, and
/// the sum, which is its value.
pub proof fn payload_tells_the_die(value: u32, sides: u32)
    ensures
        string_member(payload_members(value, sides), "value"@) == Some(decimal(value as nat)),
        string_member(payload_members(value, sides), "roll"@) == Some(
            "1d"@ + decimal(sides as nat),
        ),
        string_member(payload_members(value, sides), "sum"@) == Some(decimal(value as nat)),
        payload_members(value, sides).dom() == set!["value"@, "roll"@, "sum"@],
{
    reveal_strlit("value");
    reveal_strlit("roll");
    reveal_strlit("sum");
    assert("value"@[0] != "roll"@[0]);
    assert("value"@[0] != "sum"@[0]);
    assert("roll"@[0] != "sum"@[0]);
    assert(payload_members(value, sides).dom() =~= set!["value"@, "roll"@, "sum"@]);
}

/// An action rolls as many dice as its notation is read as asking for, and of as many
/// sides, but for a die without sides, which gets two.
pub proof fn action_rolls_what_its_notation_is_read_as(
    roller: DiceRoller,
    kind: Seq<char>,
    params: Reading,
    notation: Seq<char>,
)
    requires
        action_notation(kind, params) matches Ok(n) && n == notation,
    ensures
        ({
            let read = notation_dice(notation, roller.config.default_sides);
            roller.action_dice(kind, params) matches Ok(dice) && {
                &&& dice.0 == read.0
                &&& read.1 > 0 ==> dice.1 == read.1
                &&& read.1 == 0 ==> dice.1 == 2
            }
        }),
{
}

/// An action whose parameters hold a count within the limits, a `d` in either case and
/// sides within the limits, in decimal, with white space around them or not, rolls
/// exactly that.
pub proof fn action_rolls_what_its_notation_says(
    roller: DiceRoller,
    members: Members,
    before: Seq<char>,
    count: u32,
    d: char,
    sides: u32,
    behind: Seq<char>,
)
    requires
        all_white_space(before),
        all_white_space(behind),
        1 <= count <= 100,
        d == 'd' || d == 'D',
        2 <= sides <= 1000,
        ({
            let notation = before + (decimal(count as nat) + seq![d] + decimal(sides as nat))
                + behind;
            &&& members.contains_key("dice_notation"@)
            &&& members["dice_notation"@] == Some(notation)
            &&& reading_is_known(notation, roller.config.default_sides)
        }),
    ensures
        roller.action_dice("roll_dice"@, Ok(members)) matches Ok(dice) && dice == (count, sides),
{
    notation_means_what_it_says(before, count, d, sides, behind, roller.config.default_sides);
}

/// An action whose notation starts with its `d` rolls one die of the sides behind it.
pub proof fn action_without_a_count_rolls_one_die(
    roller: DiceRoller,
    members: Members,
    before: Seq<char>,
    d: char,
    sides: u32,
    behind: Seq<char>,
)
    requires
        all_white_space(before),
        all_white_space(behind),
        d == 'd' || d == 'D',
        2 <= sides <= 1000,
        ({
            let notation = before + (seq![d] + decimal(sides as nat)) + behind;
            &&& members.contains_key("dice_notation"@)
            &&& members["dice_notation"@] == Some(notation)
            &&& reading_is_known(notation, roller.config.default_sides)
        }),
    ensures
        roller.action_dice("roll_dice"@, Ok(members)) matches Ok(dice) && dice == (1u32, sides),
{
    omitted_count_is_one(before, d, sides, behind, roller.config.default_sides);
}

/// An action whose parameters hold no string for the notation rolls one die of six
/// sides, whatever the user configured.
pub proof fn action_without_a_notation_rolls_one_d6(roller: DiceRoller, members: Members)
    requires
        members.contains_key("dice_notation"@) ==> members["dice_notation"@] is None,
        reading_is_known("1d6"@, roller.config.default_sides),
    ensures
        roller.action_dice("roll_dice"@, Ok(members)) matches Ok(dice) && dice == (1u32, 6u32),
{
    omitted_notation_is_the_offered_default(members, roller.config.default_sides);
}

/// An action of any kind but the one that rolls dice is refused by its name, whatever
/// its parameters.
pub proof fn unknown_action_is_refused_by_name(
    roller: DiceRoller,
    kind: Seq<char>,
    params: Reading,
)
    requires
        kind != "roll_dice"@,
    ensures
        roller.action_dice(kind, params) matches Err(e) && e == ToolErrorView::NotFound(
            "Unknown action: "@ + kind,
        ),
        action_notation(kind, params) matches Err(e) && e == ToolErrorView::NotFound(
            "Unknown action: "@ + kind,
        ),
{
}

/// Parameters that are no JSON are refused with the message of the error.
pub proof fn unreadable_parameters_are_refused(roller: DiceRoller, message: Seq<char>)
    ensures
        roller.action_dice("roll_dice"@, Err(message)) matches Err(e) && e
            == ToolErrorView::BadArguments(message),
        action_notation("roll_dice"@, Err(message)) matches Err(e) && e
            == ToolErrorView::BadArguments(message),
{
}

/// The string under a key is found exactly if there is one, whatever stands under the
/// other keys.
pub proof fn string_is_found_under_its_key(members: Members, key: Seq<char>, text: Seq<char>)
    ensures
        string_member(members.insert(key, Some(text)), key) == Some(text),
        string_member(members.insert(key, None), key) is None,
        string_member(members.remove(key), key) is None,
        forall|other: Seq<char>|
            other != key ==> #[trigger] string_member(members.insert(key, Some(text)), other)
                == string_member(members, other),
{
}

} // verus!
