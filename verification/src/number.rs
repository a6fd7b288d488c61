//! Numbers out of their decimal texts.

use vstd::prelude::*;

use crate::text::chars_of;

verus! {

/// Whether a character is a decimal digit.
pub open spec fn is_digit(c: char) -> bool {
    '0' <= c && c <= '9'
}

/// The number that digits stand for in base ten.
pub open spec fn digits_value(digits: Seq<char>) -> nat
    decreases digits.len(),
{
    if digits.len() == 0 {
        0
    } else {
        10 * digits_value(digits.drop_last()) + (digits.last() as nat - '0' as nat) as nat
    }
}

/// A text without the plus sign at its start.
pub open spec fn without_plus(text: Seq<char>) -> Seq<char> {
    if text.len() > 0 && text[0] == '+' {
        text.drop_first()
    } else {
        text
    }
}

/// Whether a text is a decimal number, with or without a plus sign.
pub open spec fn is_number(text: Seq<char>) -> bool {
    let digits = without_plus(text);
    digits.len() > 0 && forall|i: int| 0 <= i < digits.len() ==> is_digit(#[trigger] digits[i])
}

/// The unsigned number that a text stands for; nothing where it stands for
/// none, or for one over a limit.
pub open spec fn number_of(text: Seq<char>, max: u64) -> Option<u64> {
    if is_number(text) && digits_value(without_plus(text)) <= max {
        Some(digits_value(without_plus(text)) as u64)
    } else {
        None
    }
}

/// Reads an unsigned number that is not over a limit.
pub fn parse_number(text: &str, max: u64) -> (number: Option<u64>)
    ensures
        number == number_of(text@, max),
{
    let chars = chars_of(text);
    let start: usize = if chars.len() > 0 && chars[0] == '+' {
        1
    } else {
        0
    };
    let ghost digits = without_plus(text@);
    assert(digits =~= text@.skip(start as int));
    if start == chars.len() {
        return None;
    }
    let mut value: u64 = 0;
    let mut fits = true;
    let mut i: usize = start;
    assert(digits.take(0) =~= seq![]);
    while i < chars.len()
        invariant
            start <= i <= chars@.len(),
            chars@ == text@,
            digits == text@.skip(start as int),
            digits == without_plus(text@),
            forall|j: int| 0 <= j < i - start ==> is_digit(#[trigger] digits[j]),
            fits ==> value <= max && value == digits_value(digits.take(i - start)),
            !fits ==> digits_value(digits.take(i - start)) > max,
        decreases chars.len() - i,
    {
        let c = chars[i];
        assert(digits[i - start] == c);
        if !('0' <= c && c <= '9') {
            return None;
        }
        let digit: u64 = (c as u32 - '0' as u32) as u64;
        assert(digits.take(i + 1 - start).drop_last() =~= digits.take(i - start));
        assert(digits.take(i + 1 - start).last() == c);
        if fits {
            if digit <= max && value <= (max - digit) / 10 {
                value = value * 10 + digit;
            } else {
                fits = false;
            }
        }
        i += 1;
    }
    assert(digits.take(i - start) =~= digits);
    if fits {
        Some(value)
    } else {
        None
    }
}

} // verus!
