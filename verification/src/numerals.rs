//! Unsigned decimal numerals: writing them and reading them back.

use vstd::prelude::*;
use vstd::slice::slice_subrange;

use crate::text::{class_holds, is_digit, CharClass};

verus! {

/// The digit that stands for `d`.
pub open spec fn digit_char(d: nat) -> char
    recommends
        d < 10,
{
    ('0' as u8 + d) as char
}

/// The number that a digit stands for.
pub open spec fn digit_value(ch: char) -> nat
    recommends
        is_digit(ch),
{
    (ch as u8 - '0' as u8) as nat
}

/// The decimal numeral of `n`, without leading zeros.
pub open spec fn decimal(n: nat) -> Seq<char>
    decreases n,
{
    if n < 10 {
        seq![digit_char(n)]
    } else {
        decimal(n / 10).push(digit_char(n % 10))
    }
}

/// Whether `s` holds digits only.
pub open spec fn all_digits(s: Seq<char>) -> bool {
    forall|i: int| 0 <= i < s.len() ==> is_digit(#[trigger] s[i])
}

/// The number that a sequence of digits stands for.
pub open spec fn value(digits: Seq<char>) -> nat
    decreases digits.len(),
{
    if digits.len() == 0 {
        0
    } else {
        value(digits.drop_last()) * 10 + digit_value(digits.last())
    }
}

/// `s` without one plus sign at its start.
pub open spec fn without_plus(s: Seq<char>) -> Seq<char> {
    if s.len() > 0 && s[0] == '+' {
        s.drop_first()
    } else {
        s
    }
}

/// What `s` stands for as an unsigned number of at most `max`: an optional
/// plus sign and then at least one digit.
pub open spec fn parse_unsigned(s: Seq<char>, max: nat) -> Option<nat> {
    let digits = without_plus(s);
    if digits.len() > 0 && all_digits(digits) && value(digits) <= max {
        Some(value(digits))
    } else {
        None
    }
}

/// More digits never stand for a smaller number.
proof fn lemma_value_grows(digits: Seq<char>, n: int)
    requires
        0 <= n <= digits.len(),
    ensures
        value(digits.take(n)) <= value(digits),
    decreases digits.len(),
{
    if n == digits.len() {
        assert(digits.take(n) == digits);
    } else {
        lemma_value_grows(digits.drop_last(), n);
        assert(digits.drop_last().take(n) == digits.take(n));
    }
}

/// A numeral consists of digits, at least one of them.
pub proof fn lemma_decimal_digits(n: nat)
    ensures
        all_digits(decimal(n)),
        decimal(n).len() > 0,
    decreases n,
{
    if n >= 10 {
        lemma_decimal_digits(n / 10);
    }
}

/// The digits of the numeral of `n` stand for `n`.
pub proof fn lemma_decimal_value(n: nat)
    ensures
        value(decimal(n)) == n,
    decreases n,
{
    if n < 10 {
        assert(decimal(n).drop_last() == Seq::<char>::empty());
        assert(value(decimal(n).drop_last()) == 0);
    } else {
        lemma_decimal_value(n / 10);
        assert(decimal(n).drop_last() == decimal(n / 10));
    }
}

/// Reading a numeral gives back the number it was written for, as long as
/// that is within the bound.
pub proof fn decimal_reads_back(n: nat, max: nat)
    ensures
        parse_unsigned(decimal(n), max) == if n <= max {
            Some(n)
        } else {
            None
        },
{
    lemma_decimal_digits(n);
    lemma_decimal_value(n);
    assert(is_digit(decimal(n)[0]));
    assert(without_plus(decimal(n)) == decimal(n));
}

/// Reads an unsigned number of at most `max`.
pub fn read_unsigned(s: &[char], max: u64) -> (number: Option<u64>)
    ensures
        match number {
            Some(n) => parse_unsigned(s@, max as nat) == Some(n as nat),
            None => parse_unsigned(s@, max as nat) is None,
        },
{
    let digits = if s.len() > 0 && s[0] == '+' {
        let rest = slice_subrange(s, 1, s.len());
        assert(rest@ == s@.drop_first());
        rest
    } else {
        s
    };
    assert(digits@ == without_plus(s@));
    if digits.len() == 0 {
        return None;
    }
    let mut n: u64 = 0;
    let mut i: usize = 0;
    while i < digits.len()
        invariant
            digits@ == without_plus(s@),
            i <= digits@.len(),
            n == value(digits@.take(i as int)),
            n <= max,
            forall|j: int| 0 <= j < i ==> is_digit(#[trigger] digits@[j]),
        decreases digits@.len() - i,
    {
        let ch = digits[i];
        if !class_holds(ch, CharClass::Digit) {
            assert(!all_digits(digits@));
            return None;
        }
        let d = (ch as u8 - '0' as u8) as u64;
        proof {
            assert(digits@.take(i + 1).drop_last() == digits@.take(i as int));
            assert(value(digits@.take(i + 1)) == n * 10 + d);
            lemma_value_grows(digits@, i + 1);
        }
        if n > (max / 10) || (n == max / 10 && d > max % 10) {
            assert(n * 10 + d > max);
            return None;
        }
        n = n * 10 + d;
        i += 1;
    }
    assert(digits@.take(digits@.len() as int) == digits@);
    Some(n)
}

/// Writes the decimal numeral of `n`.
pub fn write_decimal(n: u128) -> (numeral: Vec<char>)
    ensures
        numeral@ == decimal(n as nat),
    decreases n,
{
    let last = ('0' as u8 + (n % 10) as u8) as char;
    if n < 10 {
        let mut numeral: Vec<char> = Vec::new();
        numeral.push(last);
        assert(numeral@ =~= decimal(n as nat));
        numeral
    } else {
        let mut numeral = write_decimal(n / 10);
        numeral.push(last);
        numeral
    }
}

/// The digits have their usual values, and a further digit makes a numeral ten
/// times as large and adds its own value.
pub proof fn numerals_are_decimal(digits: Seq<char>, digit: char, d: nat)
    ensures
        is_digit(digit) ==> digit_value(digit) == digit as int - 48,
        is_digit(digit) ==> value(digits.push(digit)) == 10 * value(digits) + (digit as int - 48),
        value(Seq::<char>::empty()) == 0,
        d < 10 ==> digit_char(d) as int == 48 + d,
        is_digit(digit) <==> 48 <= digit as int <= 57,
{
    assert(digits.push(digit).drop_last() =~= digits);
}

/// A text is read as a number just where it is a numeral, with or without a
/// plus sign before it, whose value is not too large; the number is that
/// value.
pub proof fn numerals_are_read(s: Seq<char>, max: nat, n: nat)
    ensures
        parse_unsigned(s, max) == Some(n) <==> n <= max && exists|digits: Seq<char>|
            0 < digits.len() && (forall|i: int|
                0 <= i < digits.len() ==> 48 <= (#[trigger] digits[i]) as int <= 57)
                && #[trigger] value(digits) == n && (s == digits || s == seq!['+'] + digits),
{
    let own = without_plus(s);
    if parse_unsigned(s, max) == Some(n) {
        assert(value(own) == n);
        if s[0] == '+' {
            assert(s =~= seq!['+'] + own);
        }
        assert forall|i: int| 0 <= i < own.len() implies 48 <= (#[trigger] own[i]) as int <= 57 by {
            assert(is_digit(own[i]));
        }
    }
    if n <= max && exists|digits: Seq<char>|
        0 < digits.len() && (forall|i: int|
            0 <= i < digits.len() ==> 48 <= (#[trigger] digits[i]) as int <= 57)
            && #[trigger] value(digits) == n && (s == digits || s == seq!['+'] + digits) {
        let digits = choose|digits: Seq<char>|
            0 < digits.len() && (forall|i: int|
                0 <= i < digits.len() ==> 48 <= (#[trigger] digits[i]) as int <= 57)
                && #[trigger] value(digits) == n && (s == digits || s == seq!['+'] + digits);
        if s == digits {
            assert(48 <= digits[0] as int);
        } else {
            assert(s.drop_first() =~= digits);
        }
        assert(own == digits);
        assert(all_digits(digits));
    }
}

/// A number is written without a needless zero in front.
pub proof fn numerals_have_no_leading_zero(n: nat)
    ensures
        0 < decimal(n).len(),
        decimal(n)[0] == '0' <==> n == 0,
        n == 0 ==> decimal(n).len() == 1,
    decreases n,
{
    if n >= 10 {
        numerals_have_no_leading_zero(n / 10);
    }
}

} // verus!
