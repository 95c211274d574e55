//! What holds of every roll and of every flip: the faces, the text and the triggers.
use crate::clock::nanos_since_epoch;
use crate::clock::seed_of;
use crate::generator::dice;
use crate::generator::dice_follow_each_other;
use crate::generator::start_state;
use crate::generator::start_state_is_moved_by_the_thrown;
use crate::generator::xorshift;
use crate::json::object_text;
use crate::json::payload_members;
use crate::json::Members;
use crate::laws::all_digits;
use crate::laws::decimal_is_digits;
use crate::laws::decimal_reads_back;
use crate::laws::payload_tells_the_die;
use crate::laws::roll_is_what_was_asked_for;
use crate::notation::digits_value;
use crate::notation::number;
use crate::roller::coin_labels;
use crate::roller::flip_text;
use crate::roller::tally;
use crate::roller::DiceRoller;
use crate::roller::RollArgs;
use crate::text::decimal;
use crate::text::decimal_has_its_digits;
use crate::text::joined;
use crate::text::list_text;
use crate::text::roll_text_tells_all;
use crate::text::total;
use crate::text::total_adds_every_number;
use crate::triggers::calls_from;
use crate::triggers::fire_call;
use crate::triggers::refusals_do_not_stop_triggers;
use crate::triggers::HostCallView;
use crate::triggers::HostReplyView;
use crate::triggers::RollTriggersView;
use std::time::SystemTime;
use vstd::prelude::*;

verus! {

/// Where the states follow one another by the generator's step, the i-th die shows the
/// remainder of the state behind the i-th, counted from one.
pub proof fn dice_show_the_states(state: u32, count: nat, sides: u32, states: Seq<u32>)
    requires
        sides > 0,
        states.len() == count + 1,
        states[0] == state,
        forall|i: int| 0 <= i < count ==> #[trigger] states[i + 1] == xorshift(states[i]),
    ensures
        dice(state, count, sides).len() == count,
        forall|i: int|
            0 <= i < count ==> #[trigger] dice(state, count, sides)[i] == states[i + 1] as int % (
            sides as int) + 1,
    decreases count,
{
    dice_follow_each_other(state, 0, sides);
    if count > 0 {
        let fewer = (count - 1) as nat;
        let rest = states.drop_first();
        let first = dice(state, count, sides)[0];
        dice_follow_each_other(state, fewer, sides);
        assert(states[0int + 1] == xorshift(states[0]));
        assert forall|i: int| 0 <= i < fewer implies #[trigger] rest[i + 1] == xorshift(
            rest[i],
        ) by {
            assert(states[(i + 1) + 1] == xorshift(states[i + 1]));
        }
        dice_show_the_states(xorshift(state), fewer, sides, rest);
        vstd::arithmetic::div_mod::lemma_small_mod((first - 1) as nat, sides as nat);
        assert forall|i: int| 0 <= i < count implies #[trigger] dice(state, count, sides)[i]
            == states[i + 1] as int % (sides as int) + 1 by {
            if i > 0 {
                assert(dice(state, count, sides)[i] == dice(xorshift(state), fewer, sides)[i - 1]);
                assert(rest[(i - 1) + 1] == states[i + 1]);
            }
        }
    }
}

/// The faces of a roll are those of the states that follow its seed and the dice thrown
/// before, added modulo two to the 32.
pub proof fn roll_steps_the_generator(
    roller: DiceRoller,
    seed: u32,
    count: u32,
    sides: u32,
    states: Seq<u32>,
)
    requires
        sides > 0,
        states.len() == count + 1,
        (states[0] - seed - roller.total_rolls) % 0x1_0000_0000 == 0,
        forall|i: int| 0 <= i < count ==> #[trigger] states[i + 1] == xorshift(states[i]),
    ensures
        roller.faces(seed, count, sides).len() == count,
        forall|i: int|
            0 <= i < count ==> #[trigger] roller.faces(seed, count, sides)[i] == states[i + 1]
                as int % (sides as int) + 1,
{
    start_state_is_moved_by_the_thrown(seed, roller.total_rolls);
    let state: u32 = start_state(seed, roller.total_rolls);
    assert(states[0] == state);
    dice_show_the_states(state, count as nat, sides, states);
}

/// A roll of `n` dice moves the next one on as if its seed were greater by `n`.
pub proof fn dice_thrown_before_move_the_seed(
    roller: DiceRoller,
    n: u32,
    seed: u32,
    moved: u32,
    count: u32,
    sides: u32,
)
    requires
        (moved - seed - n) % 0x1_0000_0000 == 0,
    ensures
        roller.after_roll(n).faces(seed, count, sides) == roller.faces(moved, count, sides),
        roller.after_roll(n).config == roller.config,
{
    let after = roller.after_roll(n);
    tally_moves_on(roller.total_rolls, n);
    start_state_is_moved_by_the_thrown(seed, after.total_rolls);
    start_state_is_moved_by_the_thrown(moved, roller.total_rolls);
    assert(start_state(seed, after.total_rolls) == start_state(moved, roller.total_rolls));
}

/// A roll moves the tally on by its dice, modulo two to the 64.
pub proof fn tally_moves_on(total_rolls: u64, count: u32)
    ensures
        (tally(total_rolls, count) - total_rolls - count) % 0x1_0000_0000_0000_0000 == 0,
        total_rolls + count <= u64::MAX ==> tally(total_rolls, count) == total_rolls + count,
{
}

/// A roll moves nothing but the tally.
pub proof fn roll_moves_the_tally_alone(roller: DiceRoller, count: u32)
    ensures
        (roller.after_roll(count).total_rolls - roller.total_rolls - count)
            % 0x1_0000_0000_0000_0000 == 0,
        roller.after_roll(count).config.default_sides == roller.config.default_sides,
{
    tally_moves_on(roller.total_rolls, count);
}

/// Sides that a request names are the ones it asks for, whatever the user configured.
pub proof fn named_sides_are_wanted(roller: DiceRoller, count: u32, sides: u32)
    ensures
        roller.wanted_sides(RollArgs { count, sides: Some(sides) }) == sides,
{
}

/// The number behind the last equals sign of an answer reads back as the sum of the
/// faces, and the list before it is the list of the same faces. What goes before the
/// list is the prefix, the count, a `d` and the sides.
pub proof fn answer_lists_and_sums_its_dice(
    roller: DiceRoller,
    prefix: Seq<char>,
    seed: u32,
    count: u32,
    sides: u32,
)
    ensures
        ({
            let faces = roller.faces(seed, count, sides);
            let text = roller.answer(prefix, seed, count, sides).text;
            let sum = faces.fold_left(0int, |sum: int, v: u32| sum + v);
            exists|tail: Seq<char>|
                {
                    &&& text == prefix + (decimal(count as nat) + seq!['d'] + decimal(sides as nat))
                        + seq![':', ' '] + list_text(faces) + seq![' ', '=', ' '] + tail
                    &&& tail.len() > 0
                    &&& all_digits(tail)
                    &&& #[trigger] digits_value(tail) == sum
                    &&& sum <= u32::MAX ==> number(tail) == Some(sum as u32)
                    &&& tail[0] == '0' ==> tail.len() == 1
                }
        }),
{
    let faces = roller.faces(seed, count, sides);
    let text = roller.answer(prefix, seed, count, sides).text;
    let tail = decimal(total(faces));
    roll_text_tells_all(count, sides, faces);
    total_adds_every_number(faces);
    decimal_is_digits(total(faces));
    decimal_has_its_digits(total(faces));
    if total(faces) <= u32::MAX {
        decimal_reads_back(total(faces) as u32);
    }
    assert(text =~= prefix + (decimal(count as nat) + seq!['d'] + decimal(sides as nat)) + seq![
        ':',
        ' ',
    ] + list_text(faces) + seq![' ', '=', ' '] + tail);
}

/// Whatever its prefix and whatever the host refuses, an answer has one trigger fired
/// for each die of the roll, in their order, each with the payload of its face.
pub proof fn answer_fires_every_die(
    roller: DiceRoller,
    prefix: Seq<char>,
    seed: u32,
    count: u32,
    sides: u32,
    refusals: Seq<Option<Seq<char>>>,
)
    requires
        sides > 0,
        refusals.len() == count,
    ensures
        ({
            let fired = calls_from(
                roller.answer(prefix, seed, count, sides).triggers,
                HostReplyView::Start,
                refusals,
            ).filter(|c: HostCallView| c is FireTrigger);
            &&& fired.len() == count
            &&& forall|i: int|
                0 <= i < count ==> #[trigger] fired[i] == (HostCallView::FireTrigger {
                    trigger: "on_roll_value"@,
                    payload: object_text(
                        payload_members(roller.faces(seed, count, sides)[i], sides),
                    ),
                })
        }),
{
    roll_is_what_was_asked_for(roller, seed, count, sides);
    refusals_do_not_stop_triggers(roller.faces(seed, count, sides), sides, refusals);
}

/// The prefix of an answer makes no difference to its triggers, none of which has been
/// asked for yet.
pub proof fn prefix_leaves_the_triggers_alone(
    roller: DiceRoller,
    a: Seq<char>,
    b: Seq<char>,
    seed: u32,
    count: u32,
    sides: u32,
)
    ensures
        ({
            let triggers = roller.answer(a, seed, count, sides).triggers;
            &&& triggers == roller.answer(b, seed, count, sides).triggers
            &&& triggers.results == roller.faces(seed, count, sides)
            &&& triggers.sides == sides
            &&& triggers.asked == 0
        }),
{
}

/// The call for a die names the trigger, and its payload is the object that holds the
/// value, the roll of one such die and the sum, and nothing else.
pub proof fn fired_call_holds_the_die(value: u32, sides: u32, payload: Members)
    requires
        payload.dom() == set!["value"@, "roll"@, "sum"@],
        payload["value"@] == Some(decimal(value as nat)),
        payload["roll"@] == Some("1d"@ + decimal(sides as nat)),
        payload["sum"@] == Some(decimal(value as nat)),
    ensures
        fire_call(value, sides) == (HostCallView::FireTrigger {
            trigger: "on_roll_value"@,
            payload: object_text(payload),
        }),
{
    payload_tells_the_die(value, sides);
    assert(payload =~= payload_members(value, sides));
}

/// A refusal is warned of with the host's error, and no die is passed over for it.
pub proof fn refusal_is_warned_of(state: RollTriggersView, error: Seq<char>)
    ensures
        state.call_after(HostReplyView::Refused(error)) == (HostCallView::LogWarn {
            message: "failed to fire on_roll_value: "@ + error,
        }),
        state.state_after(HostReplyView::Refused(error)) == state,
{
}

/// After any other reply the next die is fired, if one is left, and the dice stay as
/// they are.
pub proof fn next_die_is_fired(state: RollTriggersView, reply: HostReplyView)
    requires
        reply !is Refused,
    ensures
        state.state_after(reply).results == state.results,
        state.state_after(reply).sides == state.sides,
        state.asked < state.results.len() ==> state.call_after(reply) == fire_call(
            state.results[state.asked as int],
            state.sides,
        ) && state.state_after(reply).asked == state.asked + 1,
        state.asked >= state.results.len() ==> state.call_after(reply) is Done
            && state.state_after(reply).asked == state.asked,
{
}

/// Parts of five characters each, joined by two, stand seven apart.
#[verifier::spinoff_prover]
proof fn lemma_joined_fives(parts: Seq<Seq<char>>, separator: Seq<char>)
    requires
        parts.len() > 0,
        separator.len() == 2,
        forall|i: int| 0 <= i < parts.len() ==> (#[trigger] parts[i]).len() == 5,
    ensures
        joined(parts, separator).len() == 7 * parts.len() - 2,
        forall|i: int|
            0 <= i < parts.len() ==> {
                &&& joined(parts, separator).subrange(7 * i, 7 * i + 5) == #[trigger] parts[i]
                &&& i < parts.len() - 1 ==> joined(parts, separator).subrange(7 * i + 5, 7 * i + 7)
                    == separator
            },
    decreases parts.len(),
{
    let text = joined(parts, separator);
    if parts.len() == 1 {
        assert(parts[0].len() == 5);
        assert(text.subrange(0, 5) =~= parts[0]);
    } else {
        let fewer = parts.drop_last();
        let head = joined(fewer, separator);
        let n = fewer.len() as int;
        assert forall|i: int| 0 <= i < fewer.len() implies (#[trigger] fewer[i]).len() == 5 by {
            assert(parts[i].len() == 5);
        }
        lemma_joined_fives(fewer, separator);
        assert(parts[n].len() == 5);
        assert(text == head + separator + parts[n]);
        assert(head.len() == 7 * n - 2);
        assert forall|i: int| 0 <= i < parts.len() implies {
            &&& text.subrange(7 * i, 7 * i + 5) == #[trigger] parts[i]
            &&& i < parts.len() - 1 ==> text.subrange(7 * i + 5, 7 * i + 7) == separator
        } by {
            if i < n {
                assert(head.subrange(7 * i, 7 * i + 5) == fewer[i]);
                assert(text.subrange(7 * i, 7 * i + 5) =~= head.subrange(7 * i, 7 * i + 5));
                if i < n - 1 {
                    let between = head.subrange(7 * i + 5, 7 * i + 7);
                    assert(between == separator);
                    assert(text.subrange(7 * i + 5, 7 * i + 7) =~= between);
                } else {
                    assert(i == n - 1);
                    assert(text.subrange(7 * n - 2, 7 * n) =~= separator);
                }
            } else {
                assert(i == n);
                assert(text.subrange(7 * n, 7 * n + 5) =~= parts[n]);
            }
        }
    }
}

/// Where the labels start in the text of a flip of `n` coins, two or more.
pub open spec fn labels_start(n: nat) -> int {
    ("Flipped "@ + decimal(n) + " coins: ["@).len() as int
}

/// The text of a flip of two or more coins says how many there are and lists one label
/// per coin between brackets, with a comma and a blank between two labels: `Heads` for
/// a coin that shows a one, `Tails` for any other.
#[verifier::spinoff_prover]
pub proof fn flip_lists_every_coin(faces: Seq<u32>)
    requires
        faces.len() >= 2,
    ensures
        ({
            let text = flip_text(faces);
            let n = faces.len() as int;
            let start = labels_start(faces.len());
            &&& text.len() == start + 7 * n - 1
            &&& text.take(start) == "Flipped "@ + decimal(faces.len()) + " coins: ["@
            &&& text.last() == ']'
            &&& forall|i: int|
                0 <= i < n ==> {
                    &&& text.subrange(start + 7 * i, start + 7 * i + 5) == if #[trigger] faces[i] == 1 {
                        "Heads"@
                    } else {
                        "Tails"@
                    }
                    &&& i < n - 1 ==> text.subrange(start + 7 * i + 5, start + 7 * i + 7) == seq![
                        ',',
                        ' ',
                    ]
                }
        }),
{
    reveal_strlit("Heads");
    reveal_strlit("Tails");
    reveal_strlit(", ");
    reveal_strlit("]");
    assert(", "@ =~= seq![',', ' ']);
    let text = flip_text(faces);
    let n = faces.len() as int;
    let start = labels_start(faces.len());
    let labels = coin_labels(faces);
    let list = joined(labels, ", "@);
    lemma_joined_fives(labels, ", "@);
    assert(text == "Flipped "@ + decimal(faces.len()) + " coins: ["@ + list + "]"@);
    assert(text.take(start) =~= "Flipped "@ + decimal(faces.len()) + " coins: ["@);
    assert(text.subrange(start, start + list.len()) =~= list);
    assert forall|i: int| 0 <= i < n implies {
        &&& text.subrange(start + 7 * i, start + 7 * i + 5) == if #[trigger] faces[i] == 1 {
            "Heads"@
        } else {
            "Tails"@
        }
        &&& i < n - 1 ==> text.subrange(start + 7 * i + 5, start + 7 * i + 7) == seq![',', ' ']
    } by {
        assert(list.subrange(7 * i, 7 * i + 5) == labels[i]);
        assert(text.subrange(start + 7 * i, start + 7 * i + 5) =~= list.subrange(7 * i, 7 * i + 5));
        if i < n - 1 {
            assert(list.subrange(7 * i + 5, 7 * i + 7) == ", "@);
            assert(text.subrange(start + 7 * i + 5, start + 7 * i + 7) =~= list.subrange(
                7 * i + 5,
                7 * i + 7,
            ));
        }
    }
}

/// A single coin is described by its label alone.
pub proof fn single_coin_is_named(face: u32)
    ensures
        flip_text(seq![face]) == "Flipped a coin: "@ + if face == 1 {
            "Heads"@
        } else {
            "Tails"@
        },
{
}

/// No two flips are described alike, where every coin shows a one or a two and there
/// are as many coins in the one as in the other.
pub proof fn flip_tells_the_coins(a: Seq<u32>, b: Seq<u32>)
    requires
        a.len() == b.len(),
        forall|i: int| 0 <= i < a.len() ==> 1 <= #[trigger] a[i] <= 2,
        forall|i: int| 0 <= i < b.len() ==> 1 <= #[trigger] b[i] <= 2,
        flip_text(a) == flip_text(b),
    ensures
        a == b,
{
    reveal_strlit("Heads");
    reveal_strlit("Tails");
    assert("Heads"@[0] != "Tails"@[0]);
    if a.len() == 1 {
        let head = "Flipped a coin: "@;
        assert(a =~= seq![a[0]]);
        assert(b =~= seq![b[0]]);
        single_coin_is_named(a[0]);
        single_coin_is_named(b[0]);
        assert(flip_text(a)[head.len() as int] == if a[0] == 1 { 'H' } else { 'T' });
        assert(flip_text(b)[head.len() as int] == if b[0] == 1 { 'H' } else { 'T' });
    } else if a.len() >= 2 {
        flip_lists_every_coin(a);
        flip_lists_every_coin(b);
        assert forall|i: int| 0 <= i < a.len() implies a[i] == b[i] by {
            assert(1 <= a[i] <= 2);
            assert(1 <= b[i] <= 2);
        }
    }
    assert(a =~= b);
}

/// The seed of a point in time lies below a second and whole seconds away from it;
/// there is none exactly before the Unix epoch.
pub proof fn seed_is_the_rest_of_the_second(time: SystemTime)
    ensures
        seed_of(time) is None <==> nanos_since_epoch(time) < 0,
        seed_of(time) matches Some(seed) ==> seed < 1_000_000_000 && (nanos_since_epoch(time)
            - seed) % 1_000_000_000 == 0,
{
}

} // verus!
