//! The pseudo-random generator behind every roll, and the dice it throws.
use vstd::prelude::*;

verus! {

/// One step of the 32-bit xorshift generator with the shifts 13, 17 and 5.
pub open spec fn xorshift(state: u32) -> u32 {
    let a = state ^ (state << 13u32);
    let b = a ^ (a >> 17u32);
    b ^ (b << 5u32)
}

/// The state `steps` steps after `state`.
pub open spec fn state_after(state: u32, steps: nat) -> u32
    decreases steps,
{
    if steps == 0 {
        state
    } else {
        xorshift(state_after(state, (steps - 1) as nat))
    }
}

/// The face that a state shows on a die.
pub open spec fn face(state: u32, sides: u32) -> u32 {
    (state as int % sides as int + 1) as u32
}

/// The faces that `count` dice show, the generator starting from `state`.
pub open spec fn dice(state: u32, count: nat, sides: u32) -> Seq<u32> {
    Seq::new(count, |i: int| face(state_after(state, (i + 1) as nat), sides))
}

/// The state a roll starts from: its seed, moved on by the dice thrown before.
pub open spec fn start_state(seed: u32, thrown: u64) -> u32 {
    ((seed + thrown) % 0x1_0000_0000) as u32
}

/// One step of the generator.
pub fn next_state(state: u32) -> (next: u32)
    ensures
        next == xorshift(state),
{
    let a: u32 = state ^ (state << 13u32);
    let b: u32 = a ^ (a >> 17u32);
    b ^ (b << 5u32)
}

/// The state a roll starts from.
pub fn first_state(seed: u32, thrown: u64) -> (state: u32)
    ensures
        state == start_state(seed, thrown),
{
    #[verifier::truncate]
    let low: u32 = thrown as u32;
    assert(thrown as u32 == thrown % 0x1_0000_0000) by (bit_vector);
    seed.wrapping_add(low)
}

/// Throws `count` dice from `state`.
pub fn throw(state: u32, count: u32, sides: u32) -> (results: Vec<u32>)
    requires
        count == 0 || sides > 0,
    ensures
        results@ == dice(state, count as nat, sides),
{
    let mut results: Vec<u32> = Vec::with_capacity(count as usize);
    let mut current: u32 = state;
    let mut i: u32 = 0;
    while i < count
        invariant
            i <= count,
            count == 0 || sides > 0,
            current == state_after(state, i as nat),
            results@ == dice(state, i as nat, sides),
        decreases count - i,
    {
        current = next_state(current);
        results.push((current % sides) + 1);
        i = i + 1;
        assert(results@ =~= dice(state, i as nat, sides));
    }
    results
}

/// There are as many dice as were asked for, and each shows a face from one to
/// `sides`.
pub proof fn dice_are_in_range(state: u32, count: nat, sides: u32)
    requires
        sides > 0,
    ensures
        dice(state, count, sides).len() == count,
        forall|i: int| 0 <= i < count ==> 1 <= #[trigger] dice(state, count, sides)[i] <= sides,
{
}

/// Dice are thrown one after another: the first shows the remainder of the next state,
/// counted from one, and the others are those thrown from that state.
pub proof fn dice_follow_each_other(state: u32, count: nat, sides: u32)
    requires
        sides > 0,
    ensures
        dice(state, 0, sides).len() == 0,
        1 <= dice(state, count + 1, sides)[0] <= sides,
        (dice(state, count + 1, sides)[0] - 1) % (sides as int) == xorshift(state) as int % (
        sides as int),
        dice(state, count + 1, sides) == seq![dice(state, count + 1, sides)[0]] + dice(
            xorshift(state),
            count,
            sides,
        ),
{
    reveal_with_fuel(state_after, 2);
    let next = xorshift(state);
    let remainder = next as int % sides as int;
    assert(state_after(state, 1) == next);
    assert(dice(state, count + 1, sides)[0] == remainder + 1);
    vstd::arithmetic::div_mod::lemma_small_mod(remainder as nat, sides as nat);
    assert forall|i: int| 0 <= i < count implies #[trigger] dice(next, count, sides)[i] == dice(
        state,
        count + 1,
        sides,
    )[i + 1] by {
        lemma_one_step_first(state, (i + 1) as nat);
    }
    assert(dice(state, count + 1, sides) =~= seq![dice(state, count + 1, sides)[0]] + dice(
        next,
        count,
        sides,
    ));
}

/// Steps after the first are steps from the next state.
proof fn lemma_one_step_first(state: u32, steps: nat)
    ensures
        state_after(state, steps + 1) == state_after(xorshift(state), steps),
    decreases steps,
{
    reveal_with_fuel(state_after, 2);
    if steps > 0 {
        lemma_one_step_first(state, (steps - 1) as nat);
    }
}

/// A throw of fewer dice is the beginning of a throw of more, and none is left out.
pub proof fn fewer_dice_are_a_beginning(state: u32, fewer: nat, more: nat, sides: u32)
    requires
        fewer <= more,
    ensures
        dice(state, more, sides).len() == more,
        dice(state, fewer, sides) == dice(state, more, sides).take(fewer as int),
{
    assert(dice(state, fewer, sides) =~= dice(state, more, sides).take(fewer as int));
}

/// The state of a step can be told from the one it leads to, by undoing the three
/// shifts from the last to the first.
pub proof fn xorshift_can_be_undone(state: u32)
    ensures
        ({
            let next = xorshift(state);
            let b = next ^ (next << 5u32) ^ (next << 10u32) ^ (next << 15u32) ^ (next << 20u32) ^ (
            next << 25u32) ^ (next << 30u32);
            let a = b ^ (b >> 17u32);
            state == a ^ (a << 13u32) ^ (a << 26u32)
        }),
{
    let next = xorshift(state);
    assert(next == xorshift(state) ==> ({
        let b = next ^ (next << 5u32) ^ (next << 10u32) ^ (next << 15u32) ^ (next << 20u32) ^ (next
            << 25u32) ^ (next << 30u32);
        let a = b ^ (b >> 17u32);
        state == a ^ (a << 13u32) ^ (a << 26u32)
    })) by (bit_vector);
}

/// The step of two states combined is the two steps combined.
pub proof fn xorshift_is_linear(a: u32, b: u32)
    ensures
        xorshift(a ^ b) == xorshift(a) ^ xorshift(b),
{
    assert(xorshift(a ^ b) == xorshift(a) ^ xorshift(b)) by (bit_vector);
}

/// The state a roll starts from is as far behind its seed as dice were thrown before,
/// modulo two to the 32.
pub proof fn start_state_is_moved_by_the_thrown(seed: u32, thrown: u64)
    ensures
        (start_state(seed, thrown) - seed - thrown) % 0x1_0000_0000 == 0,
{
    let sum: int = seed + thrown;
    let rest: int = sum % 0x1_0000_0000;
    assert(start_state(seed, thrown) == rest);
    assert((rest - sum) % 0x1_0000_0000 == 0);
}

/// No two states step to the same one.
pub proof fn xorshift_is_injective(a: u32, b: u32)
    requires
        xorshift(a) == xorshift(b),
    ensures
        a == b,
{
    assert(xorshift(a) == xorshift(b) ==> a == b) by (bit_vector);
}

/// A generator that starts from zero stays there, and one that starts elsewhere
/// never reaches zero.
pub proof fn zero_is_apart(state: u32, steps: nat)
    ensures
        state_after(state, steps) == 0 <==> state == 0,
    decreases steps,
{
    if steps > 0 {
        let before = state_after(state, (steps - 1) as nat);
        zero_is_apart(state, (steps - 1) as nat);
        assert(xorshift(before) == 0 <==> before == 0) by (bit_vector);
    }
}

/// A roll that starts from zero shows ones only.
pub proof fn zero_rolls_ones(count: nat, sides: u32)
    requires
        sides > 1,
    ensures
        dice(0, count, sides) == Seq::new(count, |i: int| 1u32),
{
    assert forall|i: int| 0 <= i < count implies #[trigger] dice(0, count, sides)[i] == 1u32 by {
        zero_is_apart(0, (i + 1) as nat);
    }
    assert(dice(0, count, sides) =~= Seq::new(count, |i: int| 1u32));
}

} // verus!
