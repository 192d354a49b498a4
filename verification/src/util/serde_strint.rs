//! Integers that a provider sends as a number or as a text.

use vstd::prelude::*;
use crate::json::{Json, JsonNumber, JsonView, NumberView};

verus! {

/// Whether a character is a decimal digit.
pub open spec fn is_decimal_digit(c: char) -> bool {
    '0' <= c && c <= '9'
}

/// The number that a decimal digit stands for.
pub open spec fn digit_value(c: char) -> int {
    ((c as u8) - 48) as int
}

/// The number that some decimal digits stand for.
pub open spec fn digits_value(digits: Seq<char>) -> int
    decreases digits.len(),
{
    if digits.len() == 0 {
        0
    } else {
        digits_value(digits.drop_last()) * 10 + digit_value(digits.last())
    }
}

/// Whether a text holds a sign first.
pub open spec fn is_signed(text: Seq<char>) -> bool {
    text.len() > 0 && (text[0] == '-' || text[0] == '+')
}

/// What stands in a text behind its sign, if it has one.
pub open spec fn unsigned_part(text: Seq<char>) -> Seq<char> {
    if is_signed(text) {
        text.drop_first()
    } else {
        text
    }
}

/// The number that a text stands for, where it is a sign or none and then
/// decimal digits.
pub open spec fn signed_value(text: Seq<char>) -> int {
    if text.len() > 0 && text[0] == '-' {
        -digits_value(unsigned_part(text))
    } else {
        digits_value(unsigned_part(text))
    }
}

/// The integer that a text reads as, as `str::parse::<i32>` reads it: a
/// plus or a minus or neither, then at least one decimal digit and nothing
/// else, for a number that 32 bits hold.
pub open spec fn parsed_i32(text: Seq<char>) -> Option<i32> {
    let digits = unsigned_part(text);
    if digits.len() > 0 && (forall|i: int| 0 <= i < digits.len() ==> is_decimal_digit(digits[i]))
        && -0x8000_0000 <= signed_value(text) <= 0x7fff_ffff {
        Some(signed_value(text) as i32)
    } else {
        None
    }
}

/// The integer that a text reads as.
pub fn parse_i32(text: &str) -> (r: Option<i32>)
    ensures
        r == parsed_i32(text@),
{
    let mut first = true;
    let mut negative = false;
    let mut any = false;
    let mut valid = true;
    let mut over = false;
    let mut sum: i64 = 0;
    assert(text@.take(0) =~= Seq::<char>::empty());
    assert(unsigned_part(text@.take(0)) =~= Seq::<char>::empty());
    for c in it: text.chars()
        invariant
            it.seq() == text@,
            first == (it.index() == 0),
            negative == (it.index() > 0 && text@[0] == '-'),
            any == (unsigned_part(text@.take(it.index() as int)).len() > 0),
            valid == (forall|i: int|
                0 <= i < unsigned_part(text@.take(it.index() as int)).len() ==> is_decimal_digit(
                    unsigned_part(text@.take(it.index() as int))[i],
                )),
            0 <= sum <= 0x8000_0000,
            valid && !over ==> sum == digits_value(unsigned_part(text@.take(it.index() as int))),
            valid && over ==> digits_value(unsigned_part(text@.take(it.index() as int)))
                > 0x8000_0000,
    {
        let ghost seen = text@.take(it.index() as int);
        let ghost upto = text@.take(it.index() + 1);
        let ghost digits = unsigned_part(seen);
        proof {
            assert(upto =~= seen.push(c));
            if it.index() > 0 {
                assert(upto[0] == seen[0]);
                assert(is_signed(upto) == is_signed(seen));
                assert(unsigned_part(upto) =~= digits.push(c));
            }
        }
        if first && (c == '-' || c == '+') {
            negative = c == '-';
            assert(unsigned_part(upto) =~= Seq::<char>::empty());
        } else {
            proof {
                assert(unsigned_part(upto) =~= digits.push(c));
                assert(digits.push(c).drop_last() =~= digits);
                assert(digits_value(digits.push(c)) == digits_value(digits) * 10 + digit_value(c));
            }
            any = true;
            if '0' <= c && c <= '9' {
                if !over {
                    sum = sum * 10 + ((c as u8) - 48) as i64;
                    if sum > 0x8000_0000 {
                        over = true;
                        sum = 0x8000_0000;
                    }
                }
            } else {
                valid = false;
                assert(!is_decimal_digit(unsigned_part(upto)[digits.len() as int]));
            }
        }
        first = false;
    }
    assert(text@.take(text@.len() as int) =~= text@);
    if !any || !valid || over {
        return None;
    }
    if negative {
        Some((-sum) as i32)
    } else if sum <= 0x7fff_ffff {
        Some(sum as i32)
    } else {
        None
    }
}

/// Why a value is no integer.
#[derive(Clone, Copy, Debug, PartialEq, Eq, Structural)]
pub enum IntegerError {
    /// The value is a text that does not read as an integer.
    InvalidText,
    /// The value is neither an integer, nor a boolean, nor a text, nor null.
    InvalidType,
}

/// The integer of 32 bits that is nearest to an integer: the integer
/// itself where 32 bits hold it, and else the least or the greatest.
pub open spec fn clamp_i32(n: int) -> i32 {
    if n < -0x8000_0000 {
        i32::MIN
    } else if n > 0x7fff_ffff {
        i32::MAX
    } else {
        n as i32
    }
}

/// The integer that a value of the wire stands for: none for null, 1 for
/// true and 0 for false, the nearest integer of 32 bits for an integer,
/// and what a text reads as. An integer that is not zero stays so.
pub open spec fn wire_integer(value: JsonView) -> Result<Option<i32>, IntegerError> {
    match value {
        JsonView::Null => Ok(None),
        JsonView::Bool(flag) => Ok(Some(if flag { 1i32 } else { 0i32 })),
        JsonView::Number(NumberView::Integer(n)) => Ok(Some(clamp_i32(n))),
        JsonView::String(s) => match parsed_i32(s) {
            Some(i) => Ok(Some(i)),
            None => Err(IntegerError::InvalidText),
        },
        _ => Err(IntegerError::InvalidType),
    }
}

/// The integer of 32 bits that is nearest to a signed number.
pub fn int_from_i64(value: i64) -> (r: i32)
    ensures
        r == clamp_i32(value as int),
{
    if value < -0x8000_0000 {
        i32::MIN
    } else if value > 0x7fff_ffff {
        i32::MAX
    } else {
        value as i32
    }
}

/// The integer of 32 bits that is nearest to an unsigned number.
pub fn int_from_u64(value: u64) -> (r: i32)
    ensures
        r == clamp_i32(value as int),
{
    if value > 0x7fff_ffff {
        i32::MAX
    } else {
        value as i32
    }
}

/// The integer of a flag: 1 for true, 0 for false.
pub fn int_from_bool(value: bool) -> (r: i32)
    ensures
        Ok::<Option<i32>, IntegerError>(Some(r)) == wire_integer(JsonView::Bool(value)),
{
    if value {
        1
    } else {
        0
    }
}

/// The integer that a text reads as.
pub fn int_from_text(text: &str) -> (r: Result<Option<i32>, IntegerError>)
    ensures
        r == wire_integer(JsonView::String(text@)),
{
    match parse_i32(text) {
        Some(i) => Ok(Some(i)),
        None => Err(IntegerError::InvalidText),
    }
}

/// Reads an optional integer that is sent as a number, as a boolean or as a
/// text.
pub fn string_or_int_to_option_i32(value: &Json) -> (r: Result<Option<i32>, IntegerError>)
    ensures
        r == wire_integer(value@),
{
    match value {
        Json::Null => Ok(None),
        Json::Bool(flag) => Ok(Some(int_from_bool(*flag))),
        Json::Number(JsonNumber::PosInt(n)) => Ok(Some(int_from_u64(*n))),
        Json::Number(JsonNumber::NegInt(n)) => Ok(Some(int_from_i64(*n))),
        Json::String(s) => int_from_text(s.as_str()),
        _ => Err(IntegerError::InvalidType),
    }
}

/// The integer that a value of the wire stands for, and none where it
/// stands for none: a value that is malformed is unknown.
pub open spec fn wire_integer_or_unknown(value: JsonView) -> Option<i32> {
    match wire_integer(value) {
        Ok(found) => found,
        Err(_) => None,
    }
}

/// Reads an optional integer of the wire, taking a malformed value as
/// unknown.
pub fn integer_or_unknown(value: &Json) -> (r: Option<i32>)
    ensures
        r == wire_integer_or_unknown(value@),
{
    match string_or_int_to_option_i32(value) {
        Ok(found) => found,
        Err(_) => None,
    }
}

} // verus!
