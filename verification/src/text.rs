//! Small verified text helpers (decimal formatting, ordinal suffixes).
use vstd::prelude::*;

verus! {

/// The character of a decimal digit `d` (`d < 10`).
pub open spec fn digit_char(d: nat) -> char {
    if d == 0 { '0' } else if d == 1 { '1' } else if d == 2 { '2' } else if d == 3 { '3' }
    else if d == 4 { '4' } else if d == 5 { '5' } else if d == 6 { '6' } else if d == 7 { '7' }
    else if d == 8 { '8' } else { '9' }
}

/// The decimal representation of `n` without leading zeros (`"0"` for zero).
pub open spec fn decimal(n: nat) -> Seq<char>
    decreases n,
{
    if n < 10 {
        seq![digit_char(n)]
    } else {
        decimal(n / 10).push(digit_char(n % 10))
    }
}

/// Appends one character to a string (`String::push`).
#[verifier::external_body]
pub(crate) fn push_char(s: &mut String, c: char)
    ensures
        final(s)@ == old(s)@.push(c),
{
    s.push(c);
}

fn digit_to_char(d: usize) -> (c: char)
    requires
        d < 10,
    ensures
        c == digit_char(d as nat),
{
    if d == 0 { '0' } else if d == 1 { '1' } else if d == 2 { '2' } else if d == 3 { '3' }
    else if d == 4 { '4' } else if d == 5 { '5' } else if d == 6 { '6' } else if d == 7 { '7' }
    else if d == 8 { '8' } else { '9' }
}

/// Appends the decimal representation of `n` to `s`.
pub fn push_decimal(s: &mut String, n: usize)
    ensures
        final(s)@ == old(s)@ + decimal(n as nat),
    decreases n,
{
    if n < 10 {
        push_char(s, digit_to_char(n));
        assert(decimal(n as nat) == seq![digit_char(n as nat)]);
    } else {
        push_decimal(s, n / 10);
        push_char(s, digit_to_char(n % 10));
        assert(old(s)@ + decimal(n as nat) == old(s)@ + decimal((n / 10) as nat) + seq![digit_char((n % 10) as nat)]);
    }
}

/// The ordinal suffix (`st`, `nd`, `rd`, `th`) chosen by the last decimal digit of `i`.
pub open spec fn ordinal_suffix(i: nat) -> Seq<char> {
    let m = i % 10;
    if m == 1 {
        seq!['s', 't']
    } else if m == 2 {
        seq!['n', 'd']
    } else if m == 3 {
        seq!['r', 'd']
    } else {
        seq!['t', 'h']
    }
}

/// Generates the string of an ordinal number: the number followed by the suffix of its last digit
/// (`1st`, `2nd`, `3rd`, `4th`, ..., `11st`, `21st`, ...).
pub fn count_str(i: usize) -> (s: String)
    ensures
        s@ == decimal(i as nat) + ordinal_suffix(i as nat),
{
    let mut s = String::new();
    push_decimal(&mut s, i);
    let m = i % 10;
    if m == 1 {
        push_char(&mut s, 's');
        push_char(&mut s, 't');
    } else if m == 2 {
        push_char(&mut s, 'n');
        push_char(&mut s, 'd');
    } else if m == 3 {
        push_char(&mut s, 'r');
        push_char(&mut s, 'd');
    } else {
        push_char(&mut s, 't');
        push_char(&mut s, 'h');
    }
    s
}

} // verus!
