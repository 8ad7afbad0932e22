//! The line translator: one line of source text, read as a line of the
//! intermediate representation.
//!
//! A line is cut at the comment marker and split into a head and its
//! operands. The head is the definition of a label or the mnemonic of a
//! command; the operands go to the parameter classifier. A line that cannot
//! be translated gives a [`ParseError`] and leaves the rest of the program alone.

use vstd::prelude::*;
use crate::ir::{IR, IRCommand, IRInstruction, IRLine, InstructionView, LineView, lines_view};
use crate::ir::IRParameter;
use crate::operand::{ParseError, ParseErrorKind, ParseErrorView, classified};
use crate::text::{all_alphanumeric, char_is_alphabetic, lowercase, occurrences, position};
use crate::text::{lemma_occurring_character, trim, trim_start, whitespace_position};
use crate::text::{count, find, find_whitespace, is_all_alphanumeric, is_alphabetic, part};
use crate::text::{string_of, to_chars, to_lowercase, trimmed, trimmed_start};

verus! {

/// The character that begins a comment.
pub const COMMENT_CHAR: char = ';';

/// The mnemonics and the command of each. Some commands have two mnemonics.
pub open spec fn mnemonics() -> Seq<(Seq<char>, IRCommand)> {
    seq![
        ("mov"@, IRCommand::Mov),
        ("add"@, IRCommand::Add),
        ("sub"@, IRCommand::Sub),
        ("mul"@, IRCommand::Mul),
        ("div"@, IRCommand::Div),
        ("mod"@, IRCommand::Mod),
        ("pow"@, IRCommand::Pow),
        ("inc"@, IRCommand::Inc),
        ("dec"@, IRCommand::Dec),
        ("and"@, IRCommand::And),
        ("or"@, IRCommand::Or),
        ("xor"@, IRCommand::Xor),
        ("shl"@, IRCommand::Shl),
        ("shr"@, IRCommand::Shr),
        ("not"@, IRCommand::Not),
        ("cmp"@, IRCommand::Cmp),
        ("jmp"@, IRCommand::Jmp),
        ("jz"@, IRCommand::Jz),
        ("jnz"@, IRCommand::Jnz),
        ("js"@, IRCommand::Js),
        ("jns"@, IRCommand::Jns),
        ("je"@, IRCommand::Jz),
        ("jne"@, IRCommand::Jnz),
        ("jlt"@, IRCommand::Js),
        ("jge"@, IRCommand::Jns),
        ("jle"@, IRCommand::Jle),
        ("jgt"@, IRCommand::Jgt),
        ("push"@, IRCommand::Push),
        ("pop"@, IRCommand::Pop),
        ("call"@, IRCommand::Call),
        ("int"@, IRCommand::Int),
        ("ret"@, IRCommand::Ret),
        ("halt"@, IRCommand::Halt),
        ("nop"@, IRCommand::Nop),
    ]
}

/// The command of the first entry of a table, from a given entry on, that has
/// the name.
pub open spec fn found_from(table: Seq<(Seq<char>, IRCommand)>, name: Seq<char>, start: int)
    -> Option<IRCommand>
    decreases table.len() - start,
{
    if start < 0 || start >= table.len() {
        None
    } else if table[start].0 == name {
        Some(table[start].1)
    } else {
        found_from(table, name, start + 1)
    }
}

/// The command that a mnemonic stands for. Mnemonics are in lower case.
pub open spec fn command_named(name: Seq<char>) -> Option<IRCommand> {
    found_from(mnemonics(), name, 0)
}

/// The part of a line that is code: the line without the whitespace before
/// it, up to the comment marker.
pub open spec fn code_of(line: Seq<char>) -> Seq<char> {
    let start = trim_start(line);
    start.take(position(start, COMMENT_CHAR))
}

/// The head of the code of a line: what stands before the first whitespace.
pub open spec fn head_of(code: Seq<char>) -> Seq<char> {
    code.take(whitespace_position(code))
}

/// The operands of the code of a line: what stands behind the first
/// whitespace, trimmed.
pub open spec fn operands_of(code: Seq<char>) -> Seq<char> {
    if whitespace_position(code) < code.len() {
        trim(code.skip(whitespace_position(code) + 1))
    } else {
        Seq::empty()
    }
}

/// Whether a head defines a label: a name of letters and digits that begins
/// with a letter, and a colon behind it.
pub open spec fn is_label_definition(head: Seq<char>) -> bool {
    head.len() > 0 && head.last() == ':' && char_is_alphabetic(head[0]) && all_alphanumeric(
        head.drop_last(),
    )
}

/// The instruction that a command makes with the text of its operands.
///
/// No text is no operand. Text without a comma is one operand, text with one
/// comma is two, and text with more is an error. Of two operands that are
/// both at fault, the error is that of the first.
pub open spec fn instruction_of(command: IRCommand, operands: Seq<char>, line_number: usize)
    -> Result<InstructionView, ParseErrorView> {
    if operands.len() == 0 {
        Ok(InstructionView { command, param1: None, param2: None, line_number })
    } else if occurrences(operands, ',') == 0 {
        match classified(operands, line_number) {
            Ok(param) => Ok(
                InstructionView { command, param1: Some(param), param2: None, line_number },
            ),
            Err(error) => Err(error),
        }
    } else if occurrences(operands, ',') == 1 {
        let comma = position(operands, ',');
        match classified(operands.take(comma), line_number) {
            Ok(first) => match classified(operands.skip(comma + 1), line_number) {
                Ok(second) => Ok(
                    InstructionView {
                        command,
                        param1: Some(first),
                        param2: Some(second),
                        line_number,
                    },
                ),
                Err(error) => Err(error),
            },
            Err(error) => Err(error),
        }
    } else {
        Err(
            ParseErrorView {
                kind: ParseErrorKind::TooManyOperands,
                token: operands,
                line_number,
            },
        )
    }
}

/// What a line of source text translates to: nothing, where the line holds no
/// code; the definition of a label; an instruction; or an error.
pub open spec fn translated(line: Seq<char>, line_number: usize) -> Result<
    Option<LineView>,
    ParseErrorView,
> {
    let code = code_of(line);
    let head = head_of(code);
    if head.len() == 0 {
        Ok(None)
    } else if is_label_definition(head) {
        Ok(Some(LineView::Label(head.drop_last())))
    } else {
        match command_named(lowercase(head)) {
            Some(command) => match instruction_of(command, operands_of(code), line_number) {
                Ok(instruction) => Ok(Some(LineView::Ins(instruction))),
                Err(error) => Err(error),
            },
            None => Err(
                ParseErrorView {
                    kind: ParseErrorKind::UnknownCommand,
                    token: lowercase(head),
                    line_number,
                },
            ),
        }
    }
}

/// What a line translates to where errors are not told from lines without code.
pub open spec fn translated_or_skipped(line: Seq<char>, line_number: usize) -> Option<LineView> {
    match translated(line, line_number) {
        Ok(translation) => translation,
        Err(_) => None,
    }
}

/// The texts of a sequence of strings.
pub open spec fn texts(lines: Seq<String>) -> Seq<Seq<char>> {
    lines.map_values(|line: String| line@)
}

/// The lines that a source text translates to, in order. Lines are numbered from one.
pub open spec fn program_lines(source: Seq<Seq<char>>) -> Seq<LineView>
    decreases source.len(),
{
    if source.len() == 0 {
        Seq::empty()
    } else {
        let before = program_lines(source.drop_last());
        match translated(source.last(), source.len() as usize) {
            Ok(Some(line)) => before.push(line),
            _ => before,
        }
    }
}

/// The errors of the lines of a source text that have one, in order.
pub open spec fn program_errors(source: Seq<Seq<char>>) -> Seq<ParseErrorView>
    decreases source.len(),
{
    if source.len() == 0 {
        Seq::empty()
    } else {
        let before = program_errors(source.drop_last());
        match translated(source.last(), source.len() as usize) {
            Err(error) => before.push(error),
            _ => before,
        }
    }
}

/// The views of a sequence of errors.
pub open spec fn errors_view(errors: Seq<ParseError>) -> Seq<ParseErrorView> {
    errors.map_values(|error: ParseError| error@)
}

/// A mnemonic table as a sequence of names and commands.
pub open spec fn table_view(table: Seq<(String, IRCommand)>) -> Seq<(Seq<char>, IRCommand)> {
    table.map_values(|entry: (String, IRCommand)| (entry.0@, entry.1))
}

impl IRCommand {
    /// The mnemonics and the command of each, as a table to search.
    pub fn translation_table() -> (table: Vec<(String, IRCommand)>)
        ensures
            table_view(table@) == mnemonics(),
    {
        let mut table: Vec<(String, IRCommand)> = Vec::new();
        table.push(("mov".to_owned(), IRCommand::Mov));
        table.push(("add".to_owned(), IRCommand::Add));
        table.push(("sub".to_owned(), IRCommand::Sub));
        table.push(("mul".to_owned(), IRCommand::Mul));
        table.push(("div".to_owned(), IRCommand::Div));
        table.push(("mod".to_owned(), IRCommand::Mod));
        table.push(("pow".to_owned(), IRCommand::Pow));
        table.push(("inc".to_owned(), IRCommand::Inc));
        table.push(("dec".to_owned(), IRCommand::Dec));
        table.push(("and".to_owned(), IRCommand::And));
        table.push(("or".to_owned(), IRCommand::Or));
        table.push(("xor".to_owned(), IRCommand::Xor));
        table.push(("shl".to_owned(), IRCommand::Shl));
        table.push(("shr".to_owned(), IRCommand::Shr));
        table.push(("not".to_owned(), IRCommand::Not));
        table.push(("cmp".to_owned(), IRCommand::Cmp));
        table.push(("jmp".to_owned(), IRCommand::Jmp));
        table.push(("jz".to_owned(), IRCommand::Jz));
        table.push(("jnz".to_owned(), IRCommand::Jnz));
        table.push(("js".to_owned(), IRCommand::Js));
        table.push(("jns".to_owned(), IRCommand::Jns));
        table.push(("je".to_owned(), IRCommand::Jz));
        table.push(("jne".to_owned(), IRCommand::Jnz));
        table.push(("jlt".to_owned(), IRCommand::Js));
        table.push(("jge".to_owned(), IRCommand::Jns));
        table.push(("jle".to_owned(), IRCommand::Jle));
        table.push(("jgt".to_owned(), IRCommand::Jgt));
        table.push(("push".to_owned(), IRCommand::Push));
        table.push(("pop".to_owned(), IRCommand::Pop));
        table.push(("call".to_owned(), IRCommand::Call));
        table.push(("int".to_owned(), IRCommand::Int));
        table.push(("ret".to_owned(), IRCommand::Ret));
        table.push(("halt".to_owned(), IRCommand::Halt));
        table.push(("nop".to_owned(), IRCommand::Nop));
        table
    }
}

impl IRInstruction {
    /// Makes an instruction of a command and the text of its operands.
    pub(crate) fn with_cmd_and_params_string(
        command: IRCommand,
        params: &[char],
        line_number: usize,
    ) -> (result: Result<IRInstruction, ParseError>)
        ensures
            match result {
                Ok(instruction) => instruction_of(command, params@, line_number) == Ok::<
                    InstructionView,
                    ParseErrorView,
                >(instruction@),
                Err(error) => instruction_of(command, params@, line_number) == Err::<
                    InstructionView,
                    ParseErrorView,
                >(error@),
            },
    {
        if params.len() == 0 {
            return Ok(IRInstruction { command, param1: None, param2: None, line_number });
        }
        let commas = count(params, ',');
        if commas == 0 {
            match IRParameter::from_chars(params, line_number) {
                Ok(param) => Ok(
                    IRInstruction { command, param1: Some(param), param2: None, line_number },
                ),
                Err(error) => Err(error),
            }
        } else if commas == 1 {
            let comma = find(params, ',');
            proof {
                lemma_occurring_character(params@, ',');
            }
            let first = match IRParameter::from_chars(part(params, 0, comma), line_number) {
                Ok(param) => param,
                Err(error) => {
                    return Err(error);
                },
            };
            let second = match IRParameter::from_chars(
                part(params, comma + 1, params.len()),
                line_number,
            ) {
                Ok(param) => param,
                Err(error) => {
                    return Err(error);
                },
            };
            Ok(IRInstruction { command, param1: Some(first), param2: Some(second), line_number })
        } else {
            Err(
                ParseError {
                    kind: ParseErrorKind::TooManyOperands,
                    token: string_of(params),
                    line_number,
                },
            )
        }
    }
}

/// The translator of source lines. It holds the table of mnemonics.
pub struct IRTranslationTable {
    command: Vec<(String, IRCommand)>,
}

impl IRTranslationTable {
    /// The names and commands that the translator holds.
    pub closed spec fn entries(&self) -> Seq<(Seq<char>, IRCommand)> {
        table_view(self.command@)
    }

    #[verifier::type_invariant]
    spec fn holds_the_mnemonics(&self) -> bool {
        self.entries() == mnemonics()
    }

    /// A translator with the table of mnemonics.
    pub fn new() -> (table: IRTranslationTable)
        ensures
            table.entries() == mnemonics(),
    {
        IRTranslationTable { command: IRCommand::translation_table() }
    }

    /// The command that a mnemonic in lower case stands for.
    pub fn lookup(&self, name: &String) -> (command: Option<IRCommand>)
        ensures
            command == command_named(name@),
    {
        proof {
            use_type_invariant(self);
        }
        let ghost table = table_view(self.command@);
        let mut index: usize = 0;
        while index < self.command.len()
            invariant
                index <= self.command.len(),
                table == table_view(self.command@),
                table == mnemonics(),
                command_named(name@) == found_from(table, name@, index as int),
            decreases self.command.len() - index,
        {
            if self.command[index].0 == *name {
                return Some(self.command[index].1);
            }
            index += 1;
        }
        None
    }

    /// Translates one line of source text.
    ///
    /// The result is the line of the intermediate representation, `None` for
    /// a line without code, or the error that says why the line is left out.
    pub fn translate_line(&self, line: &str, line_number: usize) -> (result: Result<
        Option<IRLine>,
        ParseError,
    >)
        ensures
            match result {
                Ok(Some(translation)) => translated(line@, line_number) == Ok::<
                    Option<LineView>,
                    ParseErrorView,
                >(Some(translation@)),
                Ok(None) => translated(line@, line_number) == Ok::<
                    Option<LineView>,
                    ParseErrorView,
                >(None),
                Err(error) => translated(line@, line_number) == Err::<
                    Option<LineView>,
                    ParseErrorView,
                >(error@),
            },
    {
        let chars = to_chars(line);
        // Allow for indents, and leave the comment out.
        let start = trimmed_start(chars.as_slice());
        let code = part(start, 0, find(start, COMMENT_CHAR));

        let split = find_whitespace(code);
        let head = part(code, 0, split);
        let operands = if split < code.len() {
            trimmed(part(code, split + 1, code.len()))
        } else {
            part(code, 0, 0)
        };

        // Lines without code.
        if head.len() == 0 {
            return Ok(None);
        }
        // Definitions of labels.
        if head[head.len() - 1] == ':' && is_alphabetic(head[0]) {
            let label = part(head, 0, head.len() - 1);
            if is_all_alphanumeric(label) {
                return Ok(Some(IRLine::Label(string_of(label))));
            }
        }
        // Instructions.
        let lowered = to_lowercase(head);
        let name = string_of(lowered.as_slice());
        match self.lookup(&name) {
            Some(command) => {
                match IRInstruction::with_cmd_and_params_string(command, operands, line_number) {
                    Ok(instruction) => Ok(Some(IRLine::Ins(instruction))),
                    Err(error) => Err(error),
                }
            },
            None => Err(ParseError { kind: ParseErrorKind::UnknownCommand, token: name, line_number }),
        }
    }

    /// Translates one line of source text, and gives nothing for a line that
    /// is at fault as for a line without code.
    pub fn create_intermediate(&self, line: &str, line_number: usize) -> (result: Option<IRLine>)
        ensures
            match result {
                Some(translation) => translated_or_skipped(line@, line_number) == Some(
                    translation@,
                ),
                None => translated_or_skipped(line@, line_number) is None,
            },
    {
        match self.translate_line(line, line_number) {
            Ok(translation) => translation,
            Err(_) => None,
        }
    }

    /// Translates a source text line by line. The lines are numbered from
    /// one. The result is the program of the lines that could be translated,
    /// and the errors of those that could not.
    pub fn translate_program(&self, source: &Vec<String>) -> (result: (IR, Vec<ParseError>))
        ensures
            result.0@ == program_lines(texts(source@)),
            errors_view(result.1@) == program_errors(texts(source@)),
    {
        let mut instructions: Vec<IRLine> = Vec::new();
        let mut errors: Vec<ParseError> = Vec::new();
        let ghost all = texts(source@);
        let mut index: usize = 0;
        while index < source.len()
            invariant
                index <= source.len(),
                all == texts(source@),
                lines_view(instructions@) == program_lines(all.take(index as int)),
                errors_view(errors@) == program_errors(all.take(index as int)),
            decreases source.len() - index,
        {
            assert(all.take(index + 1).drop_last() =~= all.take(index as int));
            match self.translate_line(source[index].as_str(), index + 1) {
                Ok(Some(line)) => {
                    instructions.push(line);
                },
                Ok(None) => {},
                Err(error) => {
                    errors.push(error);
                },
            }
            index += 1;
        }
        assert(all.take(index as int) =~= all);
        (IR { instructions }, errors)
    }
}

} // verus!
