//! The spelling of numbers in mesh text.
//!
//! A scalar is spelled as a decimal number: an optional sign, digits with an
//! optional point among, before or behind them, and an optional exponent of
//! `e` or `E`, an optional sign and digits. At least one digit stands beside
//! the point. An index is spelled as an integer: an optional sign and digits.

use vstd::prelude::*;

verus! {

/// The byte `+`.
pub const PLUS: u8 = 0x2b;

/// The byte `-`.
pub const MINUS: u8 = 0x2d;

/// The byte `.`.
pub const POINT: u8 = 0x2e;

/// The byte `E`.
pub const UPPER_E: u8 = 0x45;

/// The byte `e`.
pub const LOWER_E: u8 = 0x65;

/// Whether a byte is a decimal digit.
pub open spec fn is_digit(b: u8) -> bool {
    0x30 <= b <= 0x39
}

/// Whether a byte is a sign.
pub open spec fn is_sign(b: u8) -> bool {
    b == PLUS || b == MINUS
}

/// Where the run of digits that starts at `from` ends: at the first byte at
/// or behind `from` that is no digit, or at the end of `s`.
pub open spec fn digits_end(s: Seq<u8>, from: int) -> int
    decreases s.len() - from,
{
    if 0 <= from < s.len() && is_digit(s[from]) {
        digits_end(s, from + 1)
    } else {
        from
    }
}

/// Where the sign that may stand at `at` ends.
pub open spec fn sign_end(s: Seq<u8>, at: int) -> int {
    if 0 <= at < s.len() && is_sign(s[at]) {
        at + 1
    } else {
        at
    }
}

/// Where the fraction that may stand at `at` ends: behind the point and the
/// digits that follow it.
pub open spec fn fraction_end(s: Seq<u8>, at: int) -> int {
    if 0 <= at < s.len() && s[at] == POINT {
        digits_end(s, at + 1)
    } else {
        at
    }
}

/// Where the exponent that may stand at `at` ends, or `None` where an `e`
/// stands there with no digit to follow.
pub open spec fn exponent_end(s: Seq<u8>, at: int) -> Option<int> {
    if 0 <= at < s.len() && (s[at] == LOWER_E || s[at] == UPPER_E) {
        let digits = sign_end(s, at + 1);
        if digits_end(s, digits) > digits {
            Some(digits_end(s, digits))
        } else {
            None
        }
    } else {
        Some(at)
    }
}

/// Whether `s` spells a decimal number.
pub open spec fn is_number(s: Seq<u8>) -> bool {
    let whole = sign_end(s, 0);
    let point = digits_end(s, whole);
    let exponent = fraction_end(s, point);
    &&& point > whole || exponent > point + 1
    &&& exponent_end(s, exponent) == Some(s.len() as int)
}

/// Whether `s` spells an integer.
pub open spec fn is_integer(s: Seq<u8>) -> bool {
    let digits = sign_end(s, 0);
    digits < s.len() && digits_end(s, digits) == s.len()
}

/// The number that a run of digits spells.
pub open spec fn digits_value(s: Seq<u8>) -> nat
    decreases s.len(),
{
    if s.len() == 0 {
        0
    } else {
        10 * digits_value(s.drop_last()) + (s.last() - 0x30) as nat
    }
}

/// The number that an integer spells.
pub open spec fn integer_value(s: Seq<u8>) -> int {
    if s.len() > 0 && s[0] == MINUS {
        -(digits_value(s.skip(1)) as int)
    } else if s.len() > 0 && s[0] == PLUS {
        digits_value(s.skip(1)) as int
    } else {
        digits_value(s) as int
    }
}

/// The zero-based index that `s` spells among `count` entries: one less than
/// its number, where that lies between 1 and `count`.
pub open spec fn index_among(s: Seq<u8>, count: nat) -> Option<usize> {
    if 1 <= integer_value(s) <= count {
        Some((integer_value(s) - 1) as usize)
    } else {
        None
    }
}

/// A run of digits spells no less than any stretch of it that starts where
/// it starts.
pub proof fn lemma_digits_value_grows(s: Seq<u8>, k: int)
    requires
        0 <= k <= s.len(),
    ensures
        digits_value(s.take(k)) <= digits_value(s),
    decreases s.len() - k,
{
    if k < s.len() {
        lemma_digits_value_grows(s, k + 1);
        assert(s.take(k + 1).drop_last() =~= s.take(k));
    } else {
        assert(s.take(k) =~= s);
    }
}

fn digit(b: u8) -> (r: bool)
    ensures
        r == is_digit(b),
{
    0x30 <= b && b <= 0x39
}

fn skip_digits(s: &[u8], from: usize) -> (r: usize)
    requires
        from <= s.len(),
    ensures
        r == digits_end(s@, from as int),
        from <= r <= s.len(),
{
    let mut at = from;
    while at < s.len() && digit(s[at])
        invariant
            from <= at <= s.len(),
            digits_end(s@, from as int) == digits_end(s@, at as int),
        decreases s.len() - at,
    {
        at += 1;
    }
    at
}

fn skip_sign(s: &[u8], at: usize) -> (r: usize)
    requires
        at <= s.len(),
    ensures
        r == sign_end(s@, at as int),
        at <= r <= s.len(),
{
    if at < s.len() && (s[at] == PLUS || s[at] == MINUS) {
        at + 1
    } else {
        at
    }
}

/// Whether a token spells a decimal number.
pub fn spells_number(s: &[u8]) -> (r: bool)
    ensures
        r == is_number(s@),
{
    let whole = skip_sign(s, 0);
    let point = skip_digits(s, whole);
    let exponent = if point < s.len() && s[point] == POINT {
        skip_digits(s, point + 1)
    } else {
        point
    };
    if !(point > whole || exponent > point + 1) {
        return false;
    }
    if exponent < s.len() && (s[exponent] == LOWER_E || s[exponent] == UPPER_E) {
        let digits = skip_sign(s, exponent + 1);
        let end = skip_digits(s, digits);
        end > digits && end == s.len()
    } else {
        exponent == s.len()
    }
}

/// Whether a token spells an integer.
pub fn spells_integer(s: &[u8]) -> (r: bool)
    ensures
        r == is_integer(s@),
{
    let digits = skip_sign(s, 0);
    digits < s.len() && skip_digits(s, digits) == s.len()
}

/// The zero-based index that an integer spells among `count` entries.
pub(crate) fn read_index(s: &[u8], count: usize) -> (r: Option<usize>)
    requires
        is_integer(s@),
    ensures
        r == index_among(s@, count as nat),
{
    if s[0] == MINUS {
        return None;
    }
    let from: usize = if s[0] == PLUS {
        1
    } else {
        0
    };
    let ghost digits = s@.skip(from as int);
    proof {
        assert(s@.skip(0) =~= s@);
        assert(integer_value(s@) == digits_value(digits));
        assert(digits.take(0) =~= Seq::<u8>::empty());
    }
    let mut value: usize = 0;
    let mut at: usize = from;
    while at < s.len()
        invariant
            from <= at <= s.len(),
            digits == s@.skip(from as int),
            integer_value(s@) == digits_value(digits),
            digits_end(s@, at as int) == s.len(),
            value == digits_value(digits.take(at - from)),
            value <= count,
        decreases s.len() - at,
    {
        let d = s[at] - 0x30;
        proof {
            assert(digits.take(at + 1 - from).drop_last() =~= digits.take(at - from));
            assert(digits.take(at + 1 - from).last() == s@[at as int]);
            lemma_digits_value_grows(digits, at + 1 - from);
        }
        let next: u128 = 10 * (value as u128) + (d as u128);
        if next > count as u128 {
            return None;
        }
        value = next as usize;
        at += 1;
    }
    proof {
        assert(digits.take(at - from) =~= digits);
    }
    if value >= 1 {
        Some(value - 1)
    } else {
        None
    }
}

} // verus!
