//! Decimal indices as text, as they stand in the names of variants.

use vstd::prelude::*;
use vstd::string::*;

verus! {

/// The character of one decimal digit.
pub open spec fn digit(d: nat) -> char {
    if d == 0 {
        '0'
    } else if d == 1 {
        '1'
    } else if d == 2 {
        '2'
    } else if d == 3 {
        '3'
    } else if d == 4 {
        '4'
    } else if d == 5 {
        '5'
    } else if d == 6 {
        '6'
    } else if d == 7 {
        '7'
    } else if d == 8 {
        '8'
    } else {
        '9'
    }
}

/// The decimal digits of `n`, most significant first, without leading zeros.
pub open spec fn decimal(n: nat) -> Seq<char>
    decreases n,
{
    if n < 10 {
        seq![digit(n)]
    } else {
        decimal(n / 10).push(digit(n % 10))
    }
}

/// `n` in decimal, padded with a zero to two digits.
pub open spec fn two_digits(n: nat) -> Seq<char> {
    if n < 10 {
        seq!['0', digit(n)]
    } else {
        decimal(n)
    }
}

/// The text of one decimal digit.
fn digit_text(d: usize) -> (text: &'static str)
    requires
        d < 10,
    ensures
        text@ == seq![digit(d as nat)],
{
    let text = if d == 0 {
        proof { reveal_strlit("0"); }
        "0"
    } else if d == 1 {
        proof { reveal_strlit("1"); }
        "1"
    } else if d == 2 {
        proof { reveal_strlit("2"); }
        "2"
    } else if d == 3 {
        proof { reveal_strlit("3"); }
        "3"
    } else if d == 4 {
        proof { reveal_strlit("4"); }
        "4"
    } else if d == 5 {
        proof { reveal_strlit("5"); }
        "5"
    } else if d == 6 {
        proof { reveal_strlit("6"); }
        "6"
    } else if d == 7 {
        proof { reveal_strlit("7"); }
        "7"
    } else if d == 8 {
        proof { reveal_strlit("8"); }
        "8"
    } else {
        proof { reveal_strlit("9"); }
        "9"
    };
    assert(text@ =~= seq![digit(d as nat)]);
    text
}

/// Appends the decimal digits of `n` to `text`.
pub fn push_decimal(text: &mut String, n: usize)
    ensures
        final(text)@ == old(text)@ + decimal(n as nat),
    decreases n,
{
    if n >= 10 {
        push_decimal(text, n / 10);
    }
    text.append(digit_text(n % 10));
    assert(text@ =~= old(text)@ + decimal(n as nat));
}

/// Appends `n` to `text` in decimal, padded with a zero to two digits.
pub fn push_two_digits(text: &mut String, n: usize)
    ensures
        final(text)@ == old(text)@ + two_digits(n as nat),
{
    if n < 10 {
        text.append(digit_text(0));
    }
    push_decimal(text, n);
    assert(text@ =~= old(text)@ + two_digits(n as nat));
}

/// Below one hundred, an index is written as its tens and its units: two
/// characters, and different ones for different indices.
pub proof fn lemma_two_digits(n: nat, m: nat)
    requires
        n < 100,
        m < 100,
    ensures
        two_digits(n) == seq![digit(n / 10), digit(n % 10)],
        two_digits(n).len() == 2,
        two_digits(n) == two_digits(m) ==> n == m,
{
    lemma_two_digits_shape(n);
    lemma_two_digits_shape(m);
    if two_digits(n) == two_digits(m) {
        assert(two_digits(n)[0] == two_digits(m)[0]);
        assert(two_digits(n)[1] == two_digits(m)[1]);
        assert(n / 10 == m / 10);
        assert(n % 10 == m % 10);
    }
}

/// Below one hundred, an index is written as its tens and its units.
proof fn lemma_two_digits_shape(n: nat)
    requires
        n < 100,
    ensures
        two_digits(n) == seq![digit(n / 10), digit(n % 10)],
{
    if n >= 10 {
        assert(n / 10 < 10);
        assert(decimal(n / 10) == seq![digit(n / 10)]);
        assert(decimal(n) == decimal(n / 10).push(digit(n % 10)));
        assert(two_digits(n) =~= seq![digit(n / 10), digit(n % 10)]);
    } else {
        assert(n / 10 == 0);
        assert(n % 10 == n);
        assert(two_digits(n) =~= seq![digit(n / 10), digit(n % 10)]);
    }
}

} // verus!
