//! Number literals: the text of an immediate operand, read as a value of 32 bits.
//!
//! A literal is an optional sign and a body. The body is decimal, or
//! hexadecimal behind the prefix `0x`. A hexadecimal body names the 32 bits
//! themselves, so `0xffffffff` is the value -1 and `-0x10` is the value -16.

use vstd::prelude::*;
use crate::ir::IRParameter;
use crate::text::part;

verus! {

/// The value of a character as a digit: `0` to `9` and the letters `a` to `f`
/// in either case, which stand for ten to fifteen.
pub open spec fn digit_value(c: char) -> Option<int> {
    if '0' <= c <= '9' {
        Some(c as int - '0' as int)
    } else if 'a' <= c <= 'f' {
        Some(c as int - 'a' as int + 10)
    } else if 'A' <= c <= 'F' {
        Some(c as int - 'A' as int + 10)
    } else {
        None
    }
}

/// Whether a character is a digit of a number written to the given radix.
pub open spec fn is_digit(c: char, radix: int) -> bool {
    digit_value(c) matches Some(value) && value < radix
}

/// Whether a text holds nothing but digits of the given radix.
pub open spec fn all_digits(digits: Seq<char>, radix: int) -> bool {
    forall|i: int| 0 <= i < digits.len() ==> is_digit(#[trigger] digits[i], radix)
}

/// The number that a text of digits stands for, the most significant digit first.
pub open spec fn number_of(digits: Seq<char>, radix: int) -> int
    decreases digits.len(),
{
    if digits.len() == 0 {
        0
    } else {
        number_of(digits.drop_last(), radix) * radix + digit_value(digits.last())->0
    }
}

/// A number of 32 bits without a sign, read as one with a sign in two's complement.
pub open spec fn reinterpreted(value: int) -> int {
    if value >= 0x8000_0000 {
        value - 0x1_0000_0000
    } else {
        value
    }
}

/// Whether a text begins with the prefix `0x` of a hexadecimal body.
pub open spec fn has_hexadecimal_prefix(text: Seq<char>) -> bool {
    text.len() >= 2 && text[0] == '0' && text[1] == 'x'
}

/// The value of a hexadecimal body, without its prefix: at least one
/// hexadecimal digit and nothing else, where the number fits into 32 bits
/// without a sign. The value is that of these 32 bits read with a sign, so
/// `ffffffff` is -1.
pub open spec fn hexadecimal_value(digits: Seq<char>) -> Option<int> {
    if digits.len() > 0 && all_digits(digits, 16) && number_of(digits, 16) <= u32::MAX {
        Some(reinterpreted(number_of(digits, 16)))
    } else {
        None
    }
}

/// The value of a decimal body: at least one decimal digit and nothing else.
pub open spec fn decimal_value(digits: Seq<char>) -> Option<int> {
    if digits.len() > 0 && all_digits(digits, 10) {
        Some(number_of(digits, 10))
    } else {
        None
    }
}

/// Whether a text begins with a sign.
pub open spec fn has_sign(text: Seq<char>) -> bool {
    text.len() > 0 && (text[0] == '-' || text[0] == '+')
}

/// The body of a literal: the text without its sign.
pub open spec fn body_of(text: Seq<char>) -> Seq<char> {
    if has_sign(text) {
        text.drop_first()
    } else {
        text
    }
}

/// The value of the body of a literal: hexadecimal behind the prefix `0x`,
/// decimal without it.
pub open spec fn body_value(body: Seq<char>) -> Option<int> {
    if has_hexadecimal_prefix(body) {
        hexadecimal_value(body.skip(2))
    } else {
        decimal_value(body)
    }
}

/// Whether a text begins with the sign `-`.
pub open spec fn is_negative(text: Seq<char>) -> bool {
    text.len() > 0 && text[0] == '-'
}

/// A value with its sign applied, where 32 bits with a sign hold the result.
pub open spec fn with_sign(magnitude: int, negative: bool) -> Option<i32> {
    let value = if negative {
        -magnitude
    } else {
        magnitude
    };
    if i32::MIN <= value <= i32::MAX {
        Some(value as i32)
    } else {
        None
    }
}

/// The value of a number literal, or `None` where the text is not one.
///
/// A literal is an optional sign, `+` or `-`, and a body. A `-` negates the
/// value of the body, of a hexadecimal body as of a decimal one. The result
/// has to fit into 32 bits with a sign: `-2147483648` and `0x80000000` are the
/// least value, and `2147483648` and `-0x80000000`, which would be one more
/// than the greatest, are no literals.
pub open spec fn immediate_literal(text: Seq<char>) -> Option<i32> {
    match body_value(body_of(text)) {
        Some(magnitude) => with_sign(magnitude, is_negative(text)),
        None => None,
    }
}

/// The number of the first digits of a text is not above the number of all of them.
pub proof fn lemma_number_grows(digits: Seq<char>, radix: int, count: int)
    requires
        radix >= 1,
        all_digits(digits, radix),
        0 <= count <= digits.len(),
    ensures
        0 <= number_of(digits.take(count), radix) <= number_of(digits, radix),
    decreases digits.len(), count,
{
    if count < digits.len() {
        let shorter = digits.drop_last();
        assert(shorter.take(count) =~= digits.take(count));
        assert forall|i: int| 0 <= i < shorter.len() implies is_digit(
            #[trigger] shorter[i],
            radix,
        ) by {
        }
        lemma_number_grows(shorter, radix, count);
        let high = number_of(shorter, radix);
        assert(high * radix >= high) by (nonlinear_arith)
            requires
                high >= 0,
                radix >= 1,
        ;
    } else {
        assert(digits.take(count) =~= digits);
        if digits.len() > 0 {
            lemma_number_grows(digits, radix, count - 1);
        }
    }
}

/// The value of a character as a digit of the given radix.
fn digit(c: char, radix: u64) -> (value: Option<u64>)
    requires
        radix == 10 || radix == 16,
    ensures
        match value {
            Some(v) => is_digit(c, radix as int) && digit_value(c) == Some(v as int),
            None => !is_digit(c, radix as int),
        },
{
    if c >= '0' && c <= '9' {
        Some((c as u64) - ('0' as u64))
    } else if radix == 16 && c >= 'a' && c <= 'f' {
        Some((c as u64) - ('a' as u64) + 10)
    } else if radix == 16 && c >= 'A' && c <= 'F' {
        Some((c as u64) - ('A' as u64) + 10)
    } else {
        None
    }
}

/// The number that a text of digits stands for, where it has at least one
/// digit, holds nothing else and stands for a number up to the limit.
fn magnitude(digits: &[char], radix: u64, limit: u64) -> (value: Option<u64>)
    requires
        radix == 10 || radix == 16,
        limit <= u32::MAX,
    ensures
        match value {
            Some(number) => digits@.len() > 0 && all_digits(digits@, radix as int) && number
                == number_of(digits@, radix as int) && number <= limit,
            None => !(digits@.len() > 0 && all_digits(digits@, radix as int) && number_of(
                digits@,
                radix as int,
            ) <= limit),
        },
{
    if digits.len() == 0 {
        return None;
    }
    let mut number: u64 = 0;
    let mut index: usize = 0;
    while index < digits.len()
        invariant
            radix == 10 || radix == 16,
            limit <= u32::MAX,
            index <= digits.len(),
            all_digits(digits@.take(index as int), radix as int),
            number == number_of(digits@.take(index as int), radix as int),
            number <= limit,
        decreases digits.len() - index,
    {
        let ghost longer = digits@.take(index + 1);
        assert(longer.drop_last() =~= digits@.take(index as int));
        match digit(digits[index], radix) {
            Some(value) => {
                let next: u64 = number * radix + value;
                if next > limit {
                    proof {
                        if all_digits(digits@, radix as int) {
                            lemma_number_grows(digits@, radix as int, index + 1);
                        }
                    }
                    return None;
                }
                number = next;
                assert forall|i: int| 0 <= i < longer.len() implies is_digit(
                    #[trigger] longer[i],
                    radix as int,
                ) by {
                    if i < index {
                        assert(longer[i] == digits@.take(index as int)[i]);
                    }
                }
            },
            None => {
                return None;
            },
        }
        index += 1;
    }
    assert(digits@.take(index as int) =~= digits@);
    Some(number)
}

/// A value with its sign applied, where 32 bits with a sign hold the result.
fn signed(value: i64, negative: bool) -> (result: Option<i32>)
    requires
        -0x8000_0000 <= value <= 0x8000_0000,
    ensures
        result == with_sign(value as int, negative),
{
    let value: i64 = if negative {
        0 - value
    } else {
        value
    };
    if value < -0x8000_0000 || value > 0x7fff_ffff {
        None
    } else {
        Some(value as i32)
    }
}

impl IRParameter {
    /// Reads a number literal.
    pub(crate) fn get_immediate_value(param: &[char]) -> (value: Option<i32>)
        ensures
            value == immediate_literal(param@),
    {
        let negative = param.len() > 0 && param[0] == '-';
        let body = if param.len() > 0 && (param[0] == '-' || param[0] == '+') {
            part(param, 1, param.len())
        } else {
            param
        };
        if body.len() >= 2 && body[0] == '0' && body[1] == 'x' {
            match magnitude(part(body, 2, body.len()), 16, 0xffff_ffff) {
                Some(number) => {
                    let value: i64 = if number >= 0x8000_0000 {
                        number as i64 - 0x1_0000_0000
                    } else {
                        number as i64
                    };
                    signed(value, negative)
                },
                None => None,
            }
        } else {
            match magnitude(body, 10, 0x8000_0000) {
                Some(number) => signed(number as i64, negative),
                None => None,
            }
        }
    }
}

} // verus!
