//! Numbers as decimal text, both ways.

use crate::text::chars_of;
use vstd::prelude::*;
use vstd::string::StrSliceExecFns;
use vstd::string::StringExecFns;

verus! {

/// The decimal digit that stands for a value below ten.
pub open spec fn digit_char(value: int) -> char {
    (value + 48) as char
}

/// Whether `c` is a decimal digit.
pub open spec fn is_digit(c: char) -> bool {
    '0' <= c && c <= '9'
}

/// The value of a decimal digit.
pub open spec fn digit_value(c: char) -> int {
    c as int - 48
}

/// A natural number in decimal digits, without leading zeros.
pub open spec fn digits_of(value: nat) -> Seq<char>
    decreases value,
{
    if value < 10 {
        seq![digit_char(value as int)]
    } else {
        digits_of(value / 10).push(digit_char(value as int % 10))
    }
}

/// An integer in decimal digits, with a `-` in front of a negative one.
pub open spec fn decimal_of(value: int) -> Seq<char> {
    if value < 0 {
        seq!['-'] + digits_of((-value) as nat)
    } else {
        digits_of(value as nat)
    }
}

/// The number that decimal digits stand for.
pub open spec fn value_of_digits(digits: Seq<char>) -> int
    decreases digits.len(),
{
    if digits.len() == 0 {
        0
    } else {
        value_of_digits(digits.drop_last()) * 10 + digit_value(digits.last())
    }
}

/// Whether `text` is one decimal digit or more and nothing else.
pub open spec fn is_digits(text: Seq<char>) -> bool {
    text.len() > 0 && forall|i: int| 0 <= i < text.len() ==> is_digit(#[trigger] text[i])
}

/// `text` without the `+` that may stand in front of a number.
pub open spec fn unsigned_part(text: Seq<char>) -> Seq<char> {
    if text.len() > 0 && text[0] == '+' {
        text.subrange(1, text.len() as int)
    } else {
        text
    }
}

/// The port that `text` names: decimal digits, with or without a `+` in
/// front, that stand for a number up to 65535.
pub open spec fn port_of(text: Seq<char>) -> Option<u16> {
    if is_digits(unsigned_part(text)) && value_of_digits(unsigned_part(text)) <= 65535 {
        Some(value_of_digits(unsigned_part(text)) as u16)
    } else {
        None
    }
}

/// Digits stand for a number that is not negative, and more digits never
/// stand for less.
pub proof fn lemma_value_of_digits_grows(digits: Seq<char>, shorter: int)
    requires
        forall|i: int| 0 <= i < digits.len() ==> is_digit(#[trigger] digits[i]),
        0 <= shorter <= digits.len(),
    ensures
        0 <= value_of_digits(digits.take(shorter)) <= value_of_digits(digits),
    decreases digits.len() - shorter,
{
    lemma_value_of_digits_nonnegative(digits.take(shorter));
    if shorter < digits.len() {
        lemma_value_of_digits_grows(digits, shorter + 1);
        let longer = digits.take(shorter + 1);
        assert(longer.drop_last() == digits.take(shorter));
        assert(longer.last() == digits[shorter]);
    } else {
        assert(digits.take(shorter) == digits);
    }
}

/// Digits stand for a number that is not negative.
pub proof fn lemma_value_of_digits_nonnegative(digits: Seq<char>)
    requires
        forall|i: int| 0 <= i < digits.len() ==> is_digit(#[trigger] digits[i]),
    ensures
        0 <= value_of_digits(digits),
    decreases digits.len(),
{
    if digits.len() > 0 {
        assert forall|i: int| 0 <= i < digits.drop_last().len() implies is_digit(
            #[trigger] digits.drop_last()[i],
        ) by {
            assert(digits.drop_last()[i] == digits[i]);
        }
        lemma_value_of_digits_nonnegative(digits.drop_last());
    }
}

/// One decimal digit as text.
fn digit_text(value: u8) -> (digit: &'static str)
    requires
        value < 10,
    ensures
        digit@ == seq![digit_char(value as int)],
{
    let digits = "0123456789";
    proof {
        reveal_strlit("0123456789");
    }
    let digit = digits.substring_char(value as usize, value as usize + 1);
    assert(digit@ =~= seq![digit_char(value as int)]);
    digit
}

/// The digits that `reversed` holds, the last one first.
pub open spec fn digits_backwards(reversed: Seq<u8>) -> Seq<char> {
    Seq::new(reversed.len(), |i: int| digit_char(reversed[reversed.len() - 1 - i] as int))
}

/// A natural number in decimal digits.
pub fn digits(value: u32) -> (text: String)
    ensures
        text@ == digits_of(value as nat),
{
    let mut reversed: Vec<u8> = Vec::new();
    let mut rest: u32 = value;
    assert(digits_of(value as nat) =~= digits_of(rest as nat) + digits_backwards(reversed@));
    while rest >= 10
        invariant
            forall|i: int| 0 <= i < reversed@.len() ==> #[trigger] reversed@[i] < 10,
            digits_of(value as nat) == digits_of(rest as nat) + digits_backwards(reversed@),
        decreases rest,
    {
        let ghost tail = digits_backwards(reversed@);
        reversed.push((rest % 10) as u8);
        let ghost longer = digits_backwards(reversed@);
        assert(longer =~= seq![digit_char(rest as int % 10)] + tail);
        assert(digits_of(rest as nat) == digits_of(rest as nat / 10).push(
            digit_char(rest as int % 10),
        ));
        assert(digits_of(rest as nat / 10).push(digit_char(rest as int % 10)) + tail
            =~= digits_of(rest as nat / 10) + longer);
        rest = rest / 10;
    }
    let mut text = String::from_str(digit_text(rest as u8));
    let ghost tail = digits_backwards(reversed@);
    let mut left: usize = reversed.len();
    assert(text@ =~= digits_of(rest as nat) + tail.take(0));
    while left > 0
        invariant
            left <= reversed@.len(),
            rest < 10,
            forall|i: int| 0 <= i < reversed@.len() ==> #[trigger] reversed@[i] < 10,
            tail == digits_backwards(reversed@),
            text@ == digits_of(rest as nat) + tail.take(reversed@.len() - left),
        decreases left,
    {
        left -= 1;
        text.append(digit_text(reversed[left]));
        assert(text@ =~= digits_of(rest as nat) + tail.take(reversed@.len() - left));
    }
    assert(tail.take(reversed@.len() as int) == tail);
    text
}

/// An integer in decimal digits, as text.
pub fn decimal(value: i32) -> (text: String)
    ensures
        text@ == decimal_of(value as int),
{
    if value < 0 {
        let size: u32 = if value == i32::MIN {
            2_147_483_648u32
        } else {
            (-value) as u32
        };
        let mut text = String::from_str("-");
        proof {
            reveal_strlit("-");
        }
        let written = digits(size);
        text.append(written.as_str());
        assert(text@ =~= seq!['-'] + digits_of((-value) as nat));
        text
    } else {
        digits(value as u32)
    }
}

/// Reads a port: decimal digits, with or without a `+` in front, that stand
/// for a number up to 65535. Anything else is no port.
pub fn parse_port(text: &str) -> (port: Option<u16>)
    ensures
        port == port_of(text@),
{
    let chars = chars_of(text);
    let start: usize = if chars.len() > 0 && chars[0] == '+' {
        1
    } else {
        0
    };
    let ghost digits = unsigned_part(text@);
    assert(digits == text@.subrange(start as int, text@.len() as int));
    if start >= chars.len() {
        return None;
    }
    let mut value: u32 = 0;
    let mut i: usize = start;
    while i < chars.len()
        invariant
            start <= i <= chars@.len(),
            chars@ == text@,
            digits == unsigned_part(text@),
            digits == text@.subrange(start as int, text@.len() as int),
            forall|j: int| 0 <= j < i - start ==> is_digit(#[trigger] digits[j]),
            value == value_of_digits(digits.take(i - start)),
            value <= 65535,
        decreases chars@.len() - i,
    {
        let c = chars[i];
        assert(digits[i - start] == c);
        if c < '0' || c > '9' {
            assert(!is_digit(digits[i - start]));
            return None;
        }
        let ghost longer = digits.take(i - start + 1);
        assert(longer.drop_last() == digits.take(i - start));
        assert(longer.last() == c);
        let digit: u32 = (c as u32) - 48;
        value = value * 10 + digit;
        assert(value == value_of_digits(longer));
        if value > 65535 {
            proof {
                if is_digits(digits) {
                    lemma_value_of_digits_grows(digits, i - start + 1);
                }
            }
            return None;
        }
        i += 1;
    }
    assert(digits.take(i - start) == digits);
    Some(value as u16)
}

} // verus!
