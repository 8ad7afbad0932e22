//! The parameter classifier: the text of one operand, read as a typed operand.
//!
//! The rules are tried in a fixed order, so that a register name is never a
//! label and a text that begins like a number is never anything but a number.

use vstd::prelude::*;
use crate::ir::{IRParameter, IRRegister, ParameterView};
use crate::number::immediate_literal;
use crate::text::{all_alphanumeric, is_decimal_digit, lemma_trim_length, lowercase, trim};
use crate::text::{is_all_alphanumeric, part, string_of, to_chars, to_lower, trimmed};

verus! {

/// What is wrong with a line of source text.
#[derive(PartialEq, Eq, Structural, Clone, Copy, Debug)]
pub enum ParseErrorKind {
    /// An operand is empty.
    EmptyOperand,
    /// An operand begins like a number and is not one that 32 bits hold.
    InvalidNumber,
    /// An operand is neither a number, a register, a label nor one of the
    /// first two in brackets.
    InvalidOperand,
    /// The line begins with a word that is not a command.
    UnknownCommand,
    /// The line has more than two operands.
    TooManyOperands,
}

/// A line that could not be translated: what is wrong, the text at fault, and
/// the number of the line.
#[derive(Clone, Debug, PartialEq, Eq)]
pub struct ParseError {
    pub kind: ParseErrorKind,
    pub token: String,
    pub line_number: usize,
}

/// The view of a [`ParseError`].
pub struct ParseErrorView {
    pub kind: ParseErrorKind,
    pub token: Seq<char>,
    pub line_number: usize,
}

impl View for ParseError {
    type V = ParseErrorView;

    open spec fn view(&self) -> ParseErrorView {
        ParseErrorView { kind: self.kind, token: self.token@, line_number: self.line_number }
    }
}

/// The register that a name stands for, in either case of its letters.
pub open spec fn register_named(name: Seq<char>) -> Option<IRRegister> {
    let lower = lowercase(name);
    if lower =~= seq!['a'] {
        Some(IRRegister::A)
    } else if lower =~= seq!['b'] {
        Some(IRRegister::B)
    } else if lower =~= seq!['c'] {
        Some(IRRegister::C)
    } else if lower =~= seq!['d'] {
        Some(IRRegister::D)
    } else if lower =~= seq!['i', 'p'] {
        Some(IRRegister::IP)
    } else if lower =~= seq!['s', 'p'] {
        Some(IRRegister::SP)
    } else {
        None
    }
}

/// Whether a text is wrapped in a pair of brackets.
pub open spec fn is_bracketed(token: Seq<char>) -> bool {
    token.len() > 0 && token[0] == '[' && token.last() == ']'
}

/// What stands between the brackets of a bracketed text.
pub open spec fn between_brackets(token: Seq<char>) -> Seq<char> {
    token.subrange(1, token.len() - 1)
}

/// Whether a text begins like a number: with a decimal digit or a sign.
pub open spec fn begins_like_number(token: Seq<char>) -> bool {
    token.len() > 0 && (is_decimal_digit(token[0]) || token[0] == '-' || token[0] == '+')
}

/// The operand that a text stands for.
///
/// The text is trimmed first. An empty text is an error. A text in brackets
/// is what stands between them, addressed through memory, where that is a
/// register or a number. A text that begins with a digit or a sign is a
/// number or an error. Of the rest a register name is a register, and any
/// other text of letters and digits is a label.
pub open spec fn classified(text: Seq<char>, line_number: usize) -> Result<
    ParameterView,
    ParseErrorView,
>
    decreases text.len(),
{
    let token = trim(text);
    let invalid = ParseErrorView { kind: ParseErrorKind::InvalidOperand, token, line_number };
    if token.len() == 0 {
        Err(ParseErrorView { kind: ParseErrorKind::EmptyOperand, token, line_number })
    } else if is_bracketed(token) {
        proof {
            lemma_trim_length(text);
        }
        match classified(between_brackets(token), line_number) {
            Ok(ParameterView::Reg(register)) => Ok(ParameterView::MemReg(register)),
            Ok(ParameterView::Imm(value)) => Ok(ParameterView::MemImm(value)),
            Ok(_) => Err(invalid),
            Err(error) => Err(error),
        }
    } else if begins_like_number(token) {
        match immediate_literal(token) {
            Some(value) => Ok(ParameterView::Imm(value)),
            None => Err(ParseErrorView { kind: ParseErrorKind::InvalidNumber, token, line_number }),
        }
    } else if register_named(token) is Some {
        Ok(ParameterView::Reg(register_named(token)->0))
    } else if all_alphanumeric(token) {
        Ok(ParameterView::Label(token))
    } else {
        Err(invalid)
    }
}

/// Whether what translating a piece of text gave is what it should give.
pub open spec fn parameter_result_is(
    result: Result<IRParameter, ParseError>,
    expected: Result<ParameterView, ParseErrorView>,
) -> bool {
    match result {
        Ok(param) => expected == Ok::<ParameterView, ParseErrorView>(param@),
        Err(error) => expected == Err::<ParameterView, ParseErrorView>(error@),
    }
}

impl IRRegister {
    /// The register that a name stands for, in either case of its letters.
    pub fn from(name: &str) -> (register: Option<IRRegister>)
        ensures
            register == register_named(name@),
    {
        let chars = to_chars(name);
        IRRegister::from_chars(chars.as_slice())
    }

    pub(crate) fn from_chars(name: &[char]) -> (register: Option<IRRegister>)
        ensures
            register == register_named(name@),
    {
        if name.len() == 1 {
            let letter = to_lower(name[0]);
            assert(lowercase(name@)[0] == letter);
            if letter == 'a' {
                Some(IRRegister::A)
            } else if letter == 'b' {
                Some(IRRegister::B)
            } else if letter == 'c' {
                Some(IRRegister::C)
            } else if letter == 'd' {
                Some(IRRegister::D)
            } else {
                None
            }
        } else if name.len() == 2 {
            let first = to_lower(name[0]);
            let second = to_lower(name[1]);
            assert(lowercase(name@)[0] == first && lowercase(name@)[1] == second);
            if first == 'i' && second == 'p' {
                Some(IRRegister::IP)
            } else if first == 's' && second == 'p' {
                Some(IRRegister::SP)
            } else {
                None
            }
        } else {
            None
        }
    }
}

impl IRParameter {
    /// Reads one operand. The result is what [`classified`] says of the text.
    pub fn from(param: &str, line_number: usize) -> (result: Result<IRParameter, ParseError>)
        ensures
            parameter_result_is(result, classified(param@, line_number)),
    {
        let chars = to_chars(param);
        IRParameter::from_chars(chars.as_slice(), line_number)
    }

    pub(crate) fn from_chars(param: &[char], line_number: usize) -> (result: Result<
        IRParameter,
        ParseError,
    >)
        ensures
            parameter_result_is(result, classified(param@, line_number)),
        decreases param@.len(),
    {
        let token = trimmed(param);
        if token.len() == 0 {
            return Err(
                ParseError { kind: ParseErrorKind::EmptyOperand, token: string_of(token), line_number },
            );
        }
        if token[0] == '[' && token[token.len() - 1] == ']' {
            let inner = part(token, 1, token.len() - 1);
            proof {
                lemma_trim_length(param@);
            }
            return match IRParameter::from_chars(inner, line_number) {
                Ok(IRParameter::Reg(register)) => Ok(IRParameter::MemReg(register)),
                Ok(IRParameter::Imm(value)) => Ok(IRParameter::MemImm(value)),
                Ok(_) => Err(
                    ParseError {
                        kind: ParseErrorKind::InvalidOperand,
                        token: string_of(token),
                        line_number,
                    },
                ),
                Err(error) => Err(error),
            };
        }
        let first = token[0];
        if (first >= '0' && first <= '9') || first == '-' || first == '+' {
            return match IRParameter::get_immediate_value(token) {
                Some(value) => Ok(IRParameter::Imm(value)),
                None => Err(
                    ParseError {
                        kind: ParseErrorKind::InvalidNumber,
                        token: string_of(token),
                        line_number,
                    },
                ),
            };
        }
        if let Some(register) = IRRegister::from_chars(token) {
            return Ok(IRParameter::Reg(register));
        }
        if is_all_alphanumeric(token) {
            return Ok(IRParameter::Label(string_of(token)));
        }
        Err(ParseError { kind: ParseErrorKind::InvalidOperand, token: string_of(token), line_number })
    }
}

} // verus!
