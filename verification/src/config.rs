//! Reading the optional cadence setting.

use vstd::prelude::*;
use vstd::string::*;
use vstd::utf8::is_ascii_chars;
use crate::resolver::{decimal_value, is_digit};

verus! {

/// Every character of `s` is a decimal digit.
pub open spec fn all_digits(s: Seq<char>) -> bool {
    forall|i: int| 0 <= i < s.len() ==> is_digit(#[trigger] s[i])
}

/// The number of seconds that a setting denotes: the value of a non-empty
/// string of decimal digits, where it fits in 64 bits.
pub open spec fn seconds_in(text: Seq<char>) -> Option<u64> {
    if text.len() > 0 && all_digits(text) && decimal_value(text) <= u64::MAX {
        Some(decimal_value(text) as u64)
    } else {
        None
    }
}

/// The value of a string of digits is not negative.
pub proof fn lemma_decimal_value_nonnegative(s: Seq<char>)
    requires
        all_digits(s),
    ensures
        decimal_value(s) >= 0,
    decreases s.len(),
{
    if s.len() > 0 {
        let front = s.drop_last();
        assert forall|i: int| 0 <= i < front.len() implies is_digit(#[trigger] front[i]) by {
            assert(front[i] == s[i]);
        }
        lemma_decimal_value_nonnegative(front);
        assert(is_digit(s[s.len() - 1]));
    }
}

/// A string of digits denotes at least as much as each of its prefixes.
pub proof fn lemma_decimal_value_grows(s: Seq<char>, k: int)
    requires
        all_digits(s),
        0 <= k <= s.len(),
    ensures
        decimal_value(s.subrange(0, k)) <= decimal_value(s),
    decreases s.len(),
{
    if k == s.len() {
        assert(s.subrange(0, k) =~= s);
    } else {
        let front = s.drop_last();
        assert forall|i: int| 0 <= i < front.len() implies is_digit(#[trigger] front[i]) by {
            assert(front[i] == s[i]);
        }
        lemma_decimal_value_grows(front, k);
        lemma_decimal_value_nonnegative(front);
        assert(front.subrange(0, k) =~= s.subrange(0, k));
        assert(is_digit(s[s.len() - 1]));
    }
}

/// Reads the cadence setting: `Some` with the number of seconds where `text`
/// is a non-empty string of decimal digits whose value fits in 64 bits, and
/// `None` for any other text.
pub fn interval_from_text(text: &str) -> (r: Option<u64>)
    ensures
        r == seconds_in(text@),
{
    if !text.is_ascii() {
        proof {
            if all_digits(text@) {
                assert(is_ascii_chars(text@));
            }
        }
        return None;
    }
    let n: usize = text.unicode_len();
    if n == 0 {
        return None;
    }
    let mut value: u64 = 0;
    let mut i: usize = 0;
    while i < n
        invariant
            text.is_ascii(),
            n == text@.len(),
            i <= n,
            forall|x: int| 0 <= x < i ==> is_digit(#[trigger] text@[x]),
            value == decimal_value(text@.subrange(0, i as int)),
        decreases n - i,
    {
        let b: u8 = text.get_ascii(i);
        assert('\0' <= text@[i as int] <= '\u{7f}');
        if b < 48 || b > 57 {
            return None;
        }
        let digit: u64 = (b - 48) as u64;
        proof {
            let next = text@.subrange(0, i + 1);
            assert(next.drop_last() =~= text@.subrange(0, i as int));
            assert(next.last() == text@[i as int]);
            assert(decimal_value(next) == 10 * value + digit);
            if all_digits(text@) {
                lemma_decimal_value_grows(text@, i + 1);
            }
        }
        if value > (u64::MAX - digit) / 10 {
            return None;
        }
        value = value * 10 + digit;
        i += 1;
    }
    assert(text@.subrange(0, n as int) =~= text@);
    Some(value)
}

} // verus!
