//! Age descriptors: a whole number and a unit, as in `3 years`.

use vstd::prelude::*;
use vstd::string::*;
use crate::text::{chars_of, find_token_end, find_token_start, token_end, token_start};

verus! {

/// Whether `c` is one of the ten decimal digits.
pub open spec fn is_digit(c: char) -> bool {
    '0' <= c <= '9'
}

/// Whether `s` holds nothing but decimal digits.
pub open spec fn all_digits(s: Seq<char>) -> bool {
    forall|i: int| 0 <= i < s.len() ==> is_digit(#[trigger] s[i])
}

/// The number that the decimal digits `s` write; leading zeros do not count.
pub open spec fn digits_value(s: Seq<char>) -> nat
    decreases s.len(),
{
    if s.len() == 0 {
        0
    } else {
        (digits_value(s.drop_last()) * 10 + (s.last() as nat - '0' as nat)) as nat
    }
}

/// The digits of a quantity: `s` without the plus sign that may lead it.
pub open spec fn unsigned_part(s: Seq<char>) -> Seq<char> {
    if s.len() > 0 && s[0] == '+' {
        s.skip(1)
    } else {
        s
    }
}

/// The quantity that `s` writes, if it writes one: at least one decimal
/// digit and nothing else, after at most one leading plus sign. However
/// many digits there are, the quantity is their value.
pub open spec fn quantity(s: Seq<char>) -> Option<nat> {
    let digits = unsigned_part(s);
    if digits.len() > 0 && all_digits(digits) {
        Some(digits_value(digits))
    } else {
        None
    }
}

/// The number `n` as far as 64 bits hold it: `n` itself, or the largest
/// number that they hold.
pub open spec fn saturated(n: nat) -> u64 {
    if n <= u64::MAX {
        n as u64
    } else {
        u64::MAX
    }
}

/// What an age descriptor says: the quantity in its first token and the
/// unit in its second. A descriptor with less than two tokens, or whose
/// first token is no quantity, says nothing.
pub open spec fn age_reading(text: Seq<char>) -> Option<(nat, Seq<char>)> {
    let first_start = token_start(text, 0);
    let first_end = token_end(text, first_start);
    let second_start = token_start(text, first_end);
    let second_end = token_end(text, second_start);
    if second_start >= text.len() {
        None
    } else {
        match quantity(text.subrange(first_start, first_end)) {
            Some(amount) => Some((amount, text.subrange(second_start, second_end))),
            None => None,
        }
    }
}

/// A parsed age descriptor. A quantity beyond 64 bits is held as the
/// largest number that they hold.
#[derive(Debug, PartialEq, Eq)]
pub struct AgeReading {
    pub quantity: u64,
    pub unit: String,
}

/// Reads the quantity that the characters of `s` from `start` up to `end`
/// write, if they write one.
fn quantity_within(s: &Vec<char>, start: usize, end: usize) -> (amount: Option<u64>)
    requires
        start <= end <= s.len(),
    ensures
        match amount {
            Some(held) => quantity(s@.subrange(start as int, end as int)) matches Some(n)
                && held == saturated(n),
            None => quantity(s@.subrange(start as int, end as int)) is None,
        },
{
    let ghost whole = s@.subrange(start as int, end as int);
    let first: usize = if start < end && s[start] == '+' {
        start + 1
    } else {
        start
    };
    let ghost digits = s@.subrange(first as int, end as int);
    assert(digits =~= unsigned_part(whole));
    if first == end {
        return None;
    }
    let mut value: u64 = 0;
    let mut k: usize = first;
    while k < end
        invariant
            start <= first <= k <= end <= s.len(),
            first < end,
            digits == s@.subrange(first as int, end as int),
            digits == unsigned_part(s@.subrange(start as int, end as int)),
            all_digits(digits.take(k - first)),
            value == saturated(digits_value(digits.take(k - first))),
        decreases end - k,
    {
        let c = s[k];
        assert(digits[k - first] == c);
        if c < '0' || c > '9' {
            assert(!is_digit(digits[k - first]));
            return None;
        }
        let digit: u128 = (c as u32 - '0' as u32) as u128;
        let ghost before = digits.take(k - first);
        let ghost after = digits.take(k - first + 1);
        assert(after.drop_last() =~= before);
        assert(after.last() == c);
        assert forall|i: int| 0 <= i < after.len() implies is_digit(#[trigger] after[i]) by {
            if i < before.len() {
                assert(after[i] == before[i]);
            }
        }
        if value < u64::MAX {
            let wide: u128 = value as u128 * 10 + digit;
            value = if wide > u64::MAX as u128 {
                u64::MAX
            } else {
                wide as u64
            };
        }
        k = k + 1;
    }
    assert(digits.take(k - first) =~= digits);
    Some(value)
}

/// Reads the quantity that `text` writes, if it writes one. A quantity
/// beyond 64 bits comes back as the largest number that they hold.
pub fn parse_quantity(text: &str) -> (amount: Option<u64>)
    ensures
        match amount {
            Some(held) => quantity(text@) matches Some(n) && held == saturated(n),
            None => quantity(text@) is None,
        },
{
    let chars = chars_of(text);
    assert(chars@.subrange(0, chars.len() as int) =~= text@);
    quantity_within(&chars, 0, chars.len())
}

/// Parses an age descriptor into its quantity and its unit.
pub fn parse_age(text: &str) -> (reading: Option<AgeReading>)
    ensures
        match reading {
            Some(r) => age_reading(text@) matches Some((amount, unit)) && r.quantity == saturated(
                amount,
            ) && r.unit@ == unit,
            None => age_reading(text@) is None,
        },
{
    let chars = chars_of(text);
    let first_start = find_token_start(&chars, 0);
    let first_end = find_token_end(&chars, first_start);
    let second_start = find_token_start(&chars, first_end);
    if second_start >= chars.len() {
        return None;
    }
    match quantity_within(&chars, first_start, first_end) {
        Some(quantity) => {
            let second_end = find_token_end(&chars, second_start);
            let unit = text.substring_char(second_start, second_end).to_owned();
            Some(AgeReading { quantity, unit })
        },
        None => None,
    }
}

} // verus!
