//! Text building blocks: decimal numerals and positional substitution into a
//! message template.

use vstd::prelude::*;

verus! {

/// The character of a decimal digit.
pub open spec fn digit(d: nat) -> char {
    if d == 0 {
        '0'
    } else if d == 1 {
        '1'
    } else if d == 2 {
        '2'
    } else if d == 3 {
        '3'
    } else if d == 4 {
        '4'
    } else if d == 5 {
        '5'
    } else if d == 6 {
        '6'
    } else if d == 7 {
        '7'
    } else if d == 8 {
        '8'
    } else {
        '9'
    }
}

/// The decimal numeral of `n`, without leading zeros.
pub open spec fn decimal(n: nat) -> Seq<char>
    decreases n,
{
    if n < 10 {
        seq![digit(n)]
    } else {
        decimal(n / 10).push(digit(n % 10))
    }
}

/// `template` with each slot `{}` replaced, from left to right, by the next
/// of `args`. Once `args` are used up the remaining slots stay as written;
/// arguments beyond the last slot are not used.
pub open spec fn substituted(template: Seq<char>, args: Seq<Seq<char>>) -> Seq<char>
    decreases template.len(),
{
    if template.len() == 0 {
        Seq::<char>::empty()
    } else if template.len() >= 2 && template[0] == '{' && template[1] == '}' && args.len() > 0 {
        args[0] + substituted(template.skip(2), args.skip(1))
    } else {
        seq![template[0]] + substituted(template.skip(1), args)
    }
}

fn digit_text(d: u64) -> (text: &'static str)
    requires
        d < 10,
    ensures
        text@ == seq![digit(d as nat)],
{
    proof {
        reveal_strlit("0");
        reveal_strlit("1");
        reveal_strlit("2");
        reveal_strlit("3");
        reveal_strlit("4");
        reveal_strlit("5");
        reveal_strlit("6");
        reveal_strlit("7");
        reveal_strlit("8");
        reveal_strlit("9");
    }
    if d == 0 {
        "0"
    } else if d == 1 {
        "1"
    } else if d == 2 {
        "2"
    } else if d == 3 {
        "3"
    } else if d == 4 {
        "4"
    } else if d == 5 {
        "5"
    } else if d == 6 {
        "6"
    } else if d == 7 {
        "7"
    } else if d == 8 {
        "8"
    } else {
        "9"
    }
}

/// Writes `n` as a decimal numeral.
pub fn decimal_text(n: u64) -> (text: String)
    ensures
        text@ == decimal(n as nat),
    decreases n,
{
    if n < 10 {
        String::from_str(digit_text(n))
    } else {
        let mut text = decimal_text(n / 10);
        text.append(digit_text(n % 10));
        text
    }
}

/// Replaces the slots of `template` by `args`, from left to right.
pub fn substitute(template: &str, args: &Vec<String>) -> (text: String)
    ensures
        text@ == substituted(template@, args@.map_values(|a: String| a@)),
{
    let ghost texts = args@.map_values(|a: String| a@);
    let n = template.unicode_len();
    let mut text = String::new();
    let mut i: usize = 0;
    let mut k: usize = 0;
    assert(template@.skip(0) =~= template@);
    assert(texts.skip(0) =~= texts);
    while i < n
        invariant
            n == template@.len(),
            texts == args@.map_values(|a: String| a@),
            i <= n,
            k <= args.len(),
            text@ + substituted(template@.skip(i as int), texts.skip(k as int)) =~= substituted(
                template@,
                texts,
            ),
        decreases n - i,
    {
        let ghost rest = template@.skip(i as int);
        let ghost left = texts.skip(k as int);
        let ghost before = text@;
        let c = template.get_char(i);
        let slot = c == '{' && i + 1 < n && template.get_char(i + 1) == '}' && k < args.len();
        if slot {
            text.append(args[k].as_str());
            assert(rest.skip(2) =~= template@.skip(i + 2));
            assert(left.skip(1) =~= texts.skip(k + 1));
            assert(before + (left[0] + substituted(rest.skip(2), left.skip(1))) =~= before
                + left[0] + substituted(rest.skip(2), left.skip(1)));
            i += 2;
            k += 1;
        } else {
            text.append(template.substring_char(i, i + 1));
            assert(rest.skip(1) =~= template@.skip(i + 1));
            assert(before + (seq![rest[0]] + substituted(rest.skip(1), left)) =~= before
                + seq![rest[0]] + substituted(rest.skip(1), left));
            i += 1;
        }
    }
    text
}

} // verus!
