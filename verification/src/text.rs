//! The text of an answer: decimal numbers, lists and sums, each with the
//! sequence of characters that it stands for.
use vstd::prelude::*;
use vstd::string::StringExecFns;

verus! {

/// The decimal digit of `d`, for `d` below ten.
pub open spec fn digit(d: nat) -> char {
    (48 + d) as char
}

/// `n` in decimal, without leading zeros.
pub open spec fn decimal(n: nat) -> Seq<char>
    decreases n,
{
    if n < 10 {
        seq![digit(n)]
    } else {
        decimal(n / 10).push(digit(n % 10))
    }
}

/// The parts one after another, with `separator` between neighbours.
pub open spec fn joined(parts: Seq<Seq<char>>, separator: Seq<char>) -> Seq<char>
    decreases parts.len(),
{
    if parts.len() == 0 {
        seq![]
    } else if parts.len() == 1 {
        parts[0]
    } else {
        joined(parts.drop_last(), separator) + separator + parts.last()
    }
}

/// Each number in decimal.
pub open spec fn decimals(values: Seq<u32>) -> Seq<Seq<char>> {
    values.map_values(|v: u32| decimal(v as nat))
}

/// A bracketed list, as in `[3, 1, 6]`.
pub open spec fn list_text(values: Seq<u32>) -> Seq<char> {
    "["@ + joined(decimals(values), ", "@) + "]"@
}

/// The sum of all the numbers.
pub open spec fn total(values: Seq<u32>) -> nat
    decreases values.len(),
{
    if values.len() == 0 {
        0
    } else {
        total(values.drop_last()) + values.last() as nat
    }
}

/// What a roll is described by, as in `2d6: [3, 4] = 7`.
pub open spec fn roll_text(count: u32, sides: u32, results: Seq<u32>) -> Seq<char> {
    decimal(count as nat) + "d"@ + decimal(sides as nat) + ": "@ + list_text(results) + " = "@
        + decimal(total(results))
}

/// The digit of `d` as a string.
fn digit_str(d: u64) -> (s: &'static str)
    requires
        d < 10,
    ensures
        s@ == seq![digit(d as nat)],
{
    proof {
        reveal_strlit("0");
        reveal_strlit("1");
        reveal_strlit("2");
        reveal_strlit("3");
        reveal_strlit("4");
        reveal_strlit("5");
        reveal_strlit("6");
        reveal_strlit("7");
        reveal_strlit("8");
        reveal_strlit("9");
    }
    match d {
        0 => "0",
        1 => "1",
        2 => "2",
        3 => "3",
        4 => "4",
        5 => "5",
        6 => "6",
        7 => "7",
        8 => "8",
        _ => "9",
    }
}

/// Appends `n` in decimal.
pub fn push_decimal(out: &mut String, n: u64)
    ensures
        final(out)@ == old(out)@ + decimal(n as nat),
    decreases n,
{
    if n >= 10 {
        push_decimal(out, n / 10);
    }
    out.append(digit_str(n % 10));
}

/// `n` in decimal.
pub fn decimal_text(n: u64) -> (s: String)
    ensures
        s@ == decimal(n as nat),
{
    let mut s = String::new();
    push_decimal(&mut s, n);
    s
}

/// The parts joined, as the fold that appends them one by one sees it.
proof fn lemma_joined_push(parts: Seq<Seq<char>>, n: int, separator: Seq<char>)
    requires
        0 <= n < parts.len(),
    ensures
        joined(parts.take(n + 1), separator) == if n == 0 {
            parts[0]
        } else {
            joined(parts.take(n), separator) + separator + parts[n]
        },
{
    assert(parts.take(n + 1).drop_last() =~= parts.take(n));
}

/// Appends the numbers as a bracketed list.
pub fn push_list(out: &mut String, values: &Vec<u32>)
    ensures
        final(out)@ == old(out)@ + list_text(values@),
{
    let ghost before = out@;
    let ghost parts = decimals(values@);
    out.append("[");
    let mut i: usize = 0;
    assert(parts.take(0) =~= seq![]);
    assert(out@ =~= before + "["@ + joined(parts.take(0), ", "@));
    while i < values.len()
        invariant
            i <= values.len(),
            parts == decimals(values@),
            out@ == before + "["@ + joined(parts.take(i as int), ", "@),
        decreases values.len() - i,
    {
        proof {
            lemma_joined_push(parts, i as int, ", "@);
        }
        if i > 0 {
            out.append(", ");
        }
        push_decimal(out, values[i] as u64);
        i = i + 1;
        assert(out@ =~= before + "["@ + joined(parts.take(i as int), ", "@));
    }
    assert(parts.take(values.len() as int) =~= parts);
    out.append("]");
    assert(out@ =~= before + list_text(values@));
}

/// The strings one after another, with `separator` between neighbours.
pub fn join(parts: &Vec<&str>, separator: &str) -> (s: String)
    ensures
        s@ == joined(parts@.map_values(|p: &str| p@), separator@),
{
    let ghost views = parts@.map_values(|p: &str| p@);
    let mut s = String::new();
    let mut i: usize = 0;
    assert(views.take(0) =~= seq![]);
    while i < parts.len()
        invariant
            i <= parts.len(),
            views == parts@.map_values(|p: &str| p@),
            s@ == joined(views.take(i as int), separator@),
        decreases parts.len() - i,
    {
        proof {
            lemma_joined_push(views, i as int, separator@);
        }
        if i > 0 {
            s.append(separator);
        }
        s.append(parts[i]);
        i = i + 1;
        assert(s@ =~= joined(views.take(i as int), separator@));
    }
    assert(views.take(parts.len() as int) =~= views);
    s
}

/// No prefix of the numbers adds up to more than all of them.
proof fn lemma_total_prefix(values: Seq<u32>, n: int)
    requires
        0 <= n <= values.len(),
    ensures
        total(values.take(n)) <= total(values),
    decreases values.len(),
{
    if n == values.len() {
        assert(values.take(n) =~= values);
    } else {
        lemma_total_prefix(values.drop_last(), n);
        assert(values.drop_last().take(n) =~= values.take(n));
    }
}

/// The sum of the numbers.
pub fn sum(values: &Vec<u32>) -> (s: u32)
    requires
        total(values@) <= u32::MAX,
    ensures
        s == total(values@),
{
    let mut s: u32 = 0;
    let mut i: usize = 0;
    while i < values.len()
        invariant
            i <= values.len(),
            total(values@) <= u32::MAX,
            s == total(values@.take(i as int)),
        decreases values.len() - i,
    {
        proof {
            assert(values@.take(i + 1).drop_last() =~= values@.take(i as int));
            lemma_total_prefix(values@, i + 1);
        }
        s = s + values[i];
        i = i + 1;
    }
    assert(values@.take(values.len() as int) =~= values@);
    s
}

/// Numbers of at most `bound` each add up to at most their count times `bound`.
pub proof fn total_is_bounded(values: Seq<u32>, bound: nat)
    requires
        forall|i: int| 0 <= i < values.len() ==> values[i] <= bound,
    ensures
        total(values) <= values.len() * bound,
    decreases values.len(),
{
    if values.len() > 0 {
        total_is_bounded(values.drop_last(), bound);
        assert(values.len() * bound == (values.len() - 1) * bound + bound) by (nonlinear_arith)
            requires
                values.len() > 0,
        ;
    }
}

/// Appends the description of a roll.
pub fn push_roll(out: &mut String, count: u32, sides: u32, results: &Vec<u32>)
    requires
        total(results@) <= u32::MAX,
    ensures
        final(out)@ == old(out)@ + roll_text(count, sides, results@),
{
    let ghost before = out@;
    push_decimal(out, count as u64);
    out.append("d");
    push_decimal(out, sides as u64);
    out.append(": ");
    push_list(out, results);
    out.append(" = ");
    push_decimal(out, sum(results) as u64);
    assert(out@ =~= before + roll_text(count, sides, results@));
}

/// A number ends in its remainder by ten, which the number of tens stands before;
/// without tens it is that one digit.
pub proof fn decimal_has_its_digits(n: nat)
    ensures
        decimal(n).len() > 0,
        decimal(n).last() as u32 == 48 + n % 10,
        decimal(n).drop_last() == if n < 10 {
            Seq::<char>::empty()
        } else {
            decimal(n / 10)
        },
        decimal(n)[0] == '0' <==> n == 0,
    decreases n,
{
    assert(decimal(n).drop_last() =~= if n < 10 {
        Seq::<char>::empty()
    } else {
        decimal(n / 10)
    });
    if n >= 10 {
        decimal_has_its_digits(n / 10);
        assert(decimal(n)[0] == decimal(n / 10)[0]);
    }
}

/// Nothing joined is nothing, one part joined is that part, and two rows of parts are
/// joined with the separator between what each is joined to.
pub proof fn joined_rows(a: Seq<Seq<char>>, b: Seq<Seq<char>>, part: Seq<char>, separator: Seq<char>)
    requires
        a.len() > 0,
        b.len() > 0,
    ensures
        joined(seq![], separator) == Seq::<char>::empty(),
        joined(seq![part], separator) == part,
        joined(a + b, separator) == joined(a, separator) + separator + joined(b, separator),
    decreases b.len(),
{
    assert((a + b).drop_last() =~= a + b.drop_last());
    if b.len() == 1 {
        assert(a + b.drop_last() =~= a);
        assert(joined(a + b, separator) =~= joined(a, separator) + separator + joined(b, separator));
    } else {
        joined_rows(a, b.drop_last(), part, separator);
        assert(joined(a + b, separator) =~= joined(a, separator) + separator + joined(b, separator));
    }
}

/// The list of nothing is a pair of brackets, that of one number is the number within
/// them, and that of two rows of numbers is the two lists with a comma and a blank in
/// place of the brackets between them.
pub proof fn lists_of_rows(a: Seq<u32>, b: Seq<u32>, value: u32)
    requires
        a.len() > 0,
        b.len() > 0,
    ensures
        list_text(seq![]) == seq!['[', ']'],
        list_text(seq![value]) == seq!['['] + decimal(value as nat) + seq![']'],
        list_text(a + b) == list_text(a).drop_last() + seq![',', ' '] + list_text(b).drop_first(),
{
    reveal_strlit("[");
    reveal_strlit(", ");
    reveal_strlit("]");
    assert("["@ =~= seq!['[']);
    assert(", "@ =~= seq![',', ' ']);
    assert("]"@ =~= seq![']']);
    joined_rows(decimals(a), decimals(b), decimal(value as nat), ", "@);
    assert(decimals(seq![]) =~= seq![]);
    assert(decimals(seq![value]) =~= seq![decimal(value as nat)]);
    assert(decimals(a + b) =~= decimals(a) + decimals(b));
    assert(list_text(seq![]) =~= seq!['[', ']']);
    assert(list_text(a + b) =~= list_text(a).drop_last() + seq![',', ' ']
        + list_text(b).drop_first());
}

/// The total is what is left when the numbers are added one by one.
pub proof fn total_adds_every_number(values: Seq<u32>)
    ensures
        total(values) == values.fold_left(0int, |sum: int, v: u32| sum + v),
    decreases values.len(),
{
    if values.len() > 0 {
        total_adds_every_number(values.drop_last());
    }
}

/// The total of two rows of numbers is that of the one and that of the other.
pub proof fn totals_of_rows(a: Seq<u32>, b: Seq<u32>, value: u32)
    ensures
        total(seq![]) == 0,
        total(seq![value]) == value,
        total(a + b) == total(a) + total(b),
    decreases b.len(),
{
    reveal_with_fuel(total, 2);
    assert(seq![value].drop_last() =~= seq![]);
    if b.len() == 0 {
        assert(a + b =~= a);
    } else {
        assert((a + b).drop_last() =~= a + b.drop_last());
        totals_of_rows(a, b.drop_last(), value);
    }
}

/// The description of a roll is its count and its sides around a `d`, the list of its
/// dice, and the sum of all of them behind the last equals sign.
pub proof fn roll_text_tells_all(count: u32, sides: u32, results: Seq<u32>)
    ensures
        ({
            let sum = results.fold_left(0int, |sum: int, v: u32| sum + v);
            &&& sum >= 0
            &&& roll_text(count, sides, results) == decimal(count as nat) + seq!['d'] + decimal(
                sides as nat,
            ) + seq![':', ' '] + list_text(results) + seq![' ', '=', ' '] + decimal(sum as nat)
        }),
{
    reveal_strlit("d");
    reveal_strlit(": ");
    reveal_strlit(" = ");
    total_adds_every_number(results);
    assert("d"@ =~= seq!['d']);
    assert(": "@ =~= seq![':', ' ']);
    assert(" = "@ =~= seq![' ', '=', ' ']);
}

} // verus!
