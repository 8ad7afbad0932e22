//! What holds of every program and every line: the laws of the assembler,
//! each one proved from the definitions that the contracts use.

use vstd::prelude::*;
use crate::assembler::{assembled, body, closing, displacement_bytes, encoded, ends_with_halt};
use crate::assembler::{final_encoding, first_pass_error, halt_word, label_location, location_of};
use crate::assembler::{lemma_encoded_step, lemma_first_pass_error_prefix, lemma_line_without_error};
use crate::assembler::{lemma_second_pass_error_prefix, second_pass_error, target_of, word_count};
use crate::assembler::{warnings_issued, warnings_of};
use crate::encode::{AssembleErrorView, PartialEncoding, encoded_length, encoding_of};
use crate::encode::{exceeds_byte, header_of, immediate_bytes, lemma_packed_shape, low_byte};
use crate::encode::packed;
use crate::encode::{range_warning, unsigned_of, with_parameter};
use crate::ir::{IRCommand, IRParamType, IRRegister, InstructionView, LineView, ParameterView};
use crate::ir::kind_of;
use crate::number::{body_value, has_sign, immediate_literal, is_digit, with_sign};
use crate::opcode::{HALT_INSTRUCTION, has_byte_immediate, law_opcode_determines_signature, opcode_of};
use crate::operand::{ParseErrorView, begins_like_number, between_brackets, classified};
use crate::operand::{is_bracketed, register_named};
use crate::text::{all_alphanumeric, char_is_whitespace, leading_whitespace};
use crate::text::{lemma_leading_whitespace, lemma_position};
use crate::text::{lemma_trim_length, lemma_whitespace_position, lowercase, position, trim};
use crate::text::trim_start;
use crate::translate::{COMMENT_CHAR, code_of, command_named, found_from, head_of, operands_of};
use crate::translate::{mnemonics, translated, translated_or_skipped};

verus! {

/// Whether a line holds nothing but whitespace, or nothing but whitespace
/// before a comment: behind its leading whitespace the line ends or the
/// comment marker stands.
pub open spec fn is_blank_or_comment(line: Seq<char>) -> bool {
    let start = leading_whitespace(line) as int;
    start == line.len() || line[start] == COMMENT_CHAR
}

/// A line translates to nothing, and without an error, exactly if it holds
/// nothing but whitespace and a comment.
pub proof fn law_blank_lines_translate_to_nothing(line: Seq<char>, line_number: usize)
    ensures
        is_blank_or_comment(line) <==> translated(line, line_number) == Ok::<
            Option<LineView>,
            ParseErrorView,
        >(None),
        is_blank_or_comment(line) ==> translated_or_skipped(line, line_number) is None,
{
    lemma_leading_whitespace(line);
    let start = trim_start(line);
    lemma_position(start, COMMENT_CHAR);
    lemma_whitespace_position(code_of(line));
}

/// The letters of the mnemonics.
proof fn lemma_mnemonic_letters()
    ensures
        "mov"@.len() == 3 && "mov"@[0] == 'm' && "mov"@[1] == 'o' && "mov"@[2] == 'v',
        "add"@.len() == 3 && "add"@[0] == 'a' && "add"@[1] == 'd' && "add"@[2] == 'd',
        "sub"@.len() == 3 && "sub"@[0] == 's' && "sub"@[1] == 'u' && "sub"@[2] == 'b',
        "mul"@.len() == 3 && "mul"@[0] == 'm' && "mul"@[1] == 'u' && "mul"@[2] == 'l',
        "div"@.len() == 3 && "div"@[0] == 'd' && "div"@[1] == 'i' && "div"@[2] == 'v',
        "mod"@.len() == 3 && "mod"@[0] == 'm' && "mod"@[1] == 'o' && "mod"@[2] == 'd',
        "pow"@.len() == 3 && "pow"@[0] == 'p' && "pow"@[1] == 'o' && "pow"@[2] == 'w',
        "inc"@.len() == 3 && "inc"@[0] == 'i' && "inc"@[1] == 'n' && "inc"@[2] == 'c',
        "dec"@.len() == 3 && "dec"@[0] == 'd' && "dec"@[1] == 'e' && "dec"@[2] == 'c',
        "and"@.len() == 3 && "and"@[0] == 'a' && "and"@[1] == 'n' && "and"@[2] == 'd',
        "or"@.len() == 2 && "or"@[0] == 'o' && "or"@[1] == 'r',
        "xor"@.len() == 3 && "xor"@[0] == 'x' && "xor"@[1] == 'o' && "xor"@[2] == 'r',
        "shl"@.len() == 3 && "shl"@[0] == 's' && "shl"@[1] == 'h' && "shl"@[2] == 'l',
        "shr"@.len() == 3 && "shr"@[0] == 's' && "shr"@[1] == 'h' && "shr"@[2] == 'r',
        "not"@.len() == 3 && "not"@[0] == 'n' && "not"@[1] == 'o' && "not"@[2] == 't',
        "cmp"@.len() == 3 && "cmp"@[0] == 'c' && "cmp"@[1] == 'm' && "cmp"@[2] == 'p',
        "jmp"@.len() == 3 && "jmp"@[0] == 'j' && "jmp"@[1] == 'm' && "jmp"@[2] == 'p',
        "jz"@.len() == 2 && "jz"@[0] == 'j' && "jz"@[1] == 'z',
        "jnz"@.len() == 3 && "jnz"@[0] == 'j' && "jnz"@[1] == 'n' && "jnz"@[2] == 'z',
        "js"@.len() == 2 && "js"@[0] == 'j' && "js"@[1] == 's',
        "jns"@.len() == 3 && "jns"@[0] == 'j' && "jns"@[1] == 'n' && "jns"@[2] == 's',
        "je"@.len() == 2 && "je"@[0] == 'j' && "je"@[1] == 'e',
        "jne"@.len() == 3 && "jne"@[0] == 'j' && "jne"@[1] == 'n' && "jne"@[2] == 'e',
        "jlt"@.len() == 3 && "jlt"@[0] == 'j' && "jlt"@[1] == 'l' && "jlt"@[2] == 't',
        "jge"@.len() == 3 && "jge"@[0] == 'j' && "jge"@[1] == 'g' && "jge"@[2] == 'e',
        "jle"@.len() == 3 && "jle"@[0] == 'j' && "jle"@[1] == 'l' && "jle"@[2] == 'e',
        "jgt"@.len() == 3 && "jgt"@[0] == 'j' && "jgt"@[1] == 'g' && "jgt"@[2] == 't',
        "push"@.len() == 4 && "push"@[0] == 'p' && "push"@[1] == 'u' && "push"@[2] == 's' && "push"@[3] == 'h',
        "pop"@.len() == 3 && "pop"@[0] == 'p' && "pop"@[1] == 'o' && "pop"@[2] == 'p',
        "call"@.len() == 4 && "call"@[0] == 'c' && "call"@[1] == 'a' && "call"@[2] == 'l' && "call"@[3] == 'l',
        "int"@.len() == 3 && "int"@[0] == 'i' && "int"@[1] == 'n' && "int"@[2] == 't',
        "ret"@.len() == 3 && "ret"@[0] == 'r' && "ret"@[1] == 'e' && "ret"@[2] == 't',
        "halt"@.len() == 4 && "halt"@[0] == 'h' && "halt"@[1] == 'a' && "halt"@[2] == 'l' && "halt"@[3] == 't',
        "nop"@.len() == 3 && "nop"@[0] == 'n' && "nop"@[1] == 'o' && "nop"@[2] == 'p',
{
    reveal_strlit("mov");
    reveal_strlit("add");
    reveal_strlit("sub");
    reveal_strlit("mul");
    reveal_strlit("div");
    reveal_strlit("mod");
    reveal_strlit("pow");
    reveal_strlit("inc");
    reveal_strlit("dec");
    reveal_strlit("and");
    reveal_strlit("or");
    reveal_strlit("xor");
    reveal_strlit("shl");
    reveal_strlit("shr");
    reveal_strlit("not");
    reveal_strlit("cmp");
    reveal_strlit("jmp");
    reveal_strlit("jz");
    reveal_strlit("jnz");
    reveal_strlit("js");
    reveal_strlit("jns");
    reveal_strlit("je");
    reveal_strlit("jne");
    reveal_strlit("jlt");
    reveal_strlit("jge");
    reveal_strlit("jle");
    reveal_strlit("jgt");
    reveal_strlit("push");
    reveal_strlit("pop");
    reveal_strlit("call");
    reveal_strlit("int");
    reveal_strlit("ret");
    reveal_strlit("halt");
    reveal_strlit("nop");
}

/// No mnemonic stands in the table twice: each entry of the table is the one
/// that its name finds.
pub proof fn law_mnemonics_are_distinct(index: int)
    requires
        0 <= index < mnemonics().len(),
    ensures
        command_named(mnemonics()[index].0) == Some(mnemonics()[index].1),
{
    reveal_with_fuel(found_from, 35);
    lemma_mnemonic_letters();
}

/// The mnemonics that share a command: `je` is `jz`, `jne` is `jnz`, `jlt` is
/// `js` and `jge` is `jns`. A mnemonic in upper case is not in the table: the
/// translator lowers the head of a line before it looks it up.
pub proof fn law_synonyms()
    ensures
        command_named("je"@) == Some(IRCommand::Jz),
        command_named("jz"@) == Some(IRCommand::Jz),
        command_named("jne"@) == Some(IRCommand::Jnz),
        command_named("jnz"@) == Some(IRCommand::Jnz),
        command_named("jlt"@) == Some(IRCommand::Js),
        command_named("js"@) == Some(IRCommand::Js),
        command_named("jge"@) == Some(IRCommand::Jns),
        command_named("jns"@) == Some(IRCommand::Jns),
        command_named("JE"@) is None,
{
    reveal_with_fuel(found_from, 35);
    lemma_mnemonic_letters();
    reveal_strlit("JE");
    assert("JE"@[0] == 'J');
}

/// A line that translates to an instruction gives it the number of the line
/// and the command that its head names, and no second operand without a first.
pub proof fn law_translated_instruction(
    line: Seq<char>,
    line_number: usize,
    instruction: InstructionView,
)
    requires
        translated(line, line_number) == Ok::<Option<LineView>, ParseErrorView>(
            Some(LineView::Ins(instruction)),
        ),
    ensures
        instruction.line_number == line_number,
        command_named(lowercase(head_of(code_of(line)))) == Some(instruction.command),
        instruction.param1 is None ==> instruction.param2 is None,
        instruction.param1 is None <==> operands_of(code_of(line)).len() == 0,
{
}

/// A line that cannot be translated is reported with its own number.
pub proof fn law_error_names_the_line(line: Seq<char>, line_number: usize)
    requires
        translated(line, line_number) is Err,
    ensures
        translated(line, line_number)->Err_0.line_number == line_number,
{
    let operands = operands_of(code_of(line));
    let comma = position(operands, ',');
    lemma_error_names_the_line(operands, line_number);
    lemma_error_names_the_line(operands.take(comma), line_number);
    lemma_error_names_the_line(operands.skip(comma + 1), line_number);
}

proof fn lemma_error_names_the_line(text: Seq<char>, line_number: usize)
    ensures
        classified(text, line_number) is Err ==> classified(text, line_number)->Err_0.line_number
            == line_number,
    decreases text.len(),
{
    let token = trim(text);
    if token.len() > 0 && is_bracketed(token) {
        lemma_trim_length(text);
        lemma_error_names_the_line(between_brackets(token), line_number);
    }
}

/// The sign of a literal: `+` before a body leaves its value, and `-` negates
/// it, of a hexadecimal body as of a decimal one. The body has no sign of its
/// own, so `0x+10` and `+-5` are no literals.
pub proof fn law_sign_of_a_literal(body: Seq<char>)
    requires
        !has_sign(body),
    ensures
        immediate_literal(seq!['+'] + body) == immediate_literal(body),
        body_value(body) matches Some(value) ==> immediate_literal(body) == with_sign(value, false)
            && immediate_literal(seq!['-'] + body) == with_sign(value, true),
        body_value(body) is None ==> immediate_literal(seq!['-'] + body) is None
            && immediate_literal(body) is None,
        immediate_literal(seq!['+'] + (seq!['+'] + body)) is None,
        immediate_literal(seq!['-'] + (seq!['+'] + body)) is None,
        immediate_literal(seq!['0', 'x', '+'] + body) is None,
{
    assert((seq!['+'] + body).drop_first() =~= body);
    assert((seq!['-'] + body).drop_first() =~= body);
    let signed = seq!['+'] + body;
    assert((seq!['+'] + signed).drop_first() =~= signed);
    assert((seq!['-'] + signed).drop_first() =~= signed);
    assert(!is_digit(signed[0], 10));
    assert(!(signed[0] == '0'));
    let inner = seq!['0', 'x', '+'] + body;
    assert(inner.skip(2)[0] == '+');
    assert(!is_digit(inner.skip(2)[0], 16));
}

/// The case of its letters makes no difference to what a register name names.
pub proof fn law_register_names_ignore_case(one: Seq<char>, other: Seq<char>)
    requires
        lowercase(one) == lowercase(other),
    ensures
        register_named(one) == register_named(other),
        register_named(lowercase(one)) == register_named(one),
{
    assert(lowercase(lowercase(one)) =~= lowercase(one));
}

/// A line of whitespace alone, or of whitespace and then a comment,
/// translates to nothing: where every character before some place is
/// whitespace, and the line ends at that place or has the comment marker there.
pub proof fn law_comment_lines_translate_to_nothing(
    line: Seq<char>,
    line_number: usize,
    place: int,
)
    requires
        0 <= place <= line.len(),
        forall|i: int| 0 <= i < place ==> char_is_whitespace(#[trigger] line[i]),
        place == line.len() || line[place] == COMMENT_CHAR,
    ensures
        is_blank_or_comment(line),
        translated(line, line_number) == Ok::<Option<LineView>, ParseErrorView>(None),
{
    lemma_leading_whitespace(line);
    let start = leading_whitespace(line) as int;
    if start < place {
        assert(char_is_whitespace(line[start]));
    }
    if start > place {
        assert(char_is_whitespace(line[place]));
    }
    law_blank_lines_translate_to_nothing(line, line_number);
}

/// A label is never a register and never begins like a number: an operand
/// that is read as a label is its own trimmed text, which is not empty, holds
/// letters and digits only, names no register and begins with neither a
/// decimal digit nor a sign.
pub proof fn law_labels_are_no_registers_or_numbers(
    text: Seq<char>,
    line_number: usize,
    name: Seq<char>,
)
    requires
        classified(text, line_number) == Ok::<ParameterView, ParseErrorView>(
            ParameterView::Label(name),
        ),
    ensures
        name == trim(text),
        name.len() > 0,
        all_alphanumeric(name),
        register_named(name) is None,
        !begins_like_number(name),
        !is_bracketed(name),
{
}

/// An operand in brackets is one of the two kinds that address memory, or an error.
pub proof fn law_brackets_address_memory(text: Seq<char>, line_number: usize)
    requires
        is_bracketed(trim(text)),
    ensures
        match classified(text, line_number) {
            Ok(ParameterView::MemReg(_)) | Ok(ParameterView::MemImm(_)) | Err(_) => true,
            _ => false,
        },
{
}

/// The bytes of the lines are whole words.
pub proof fn lemma_encoded_words(lines: Seq<LineView>)
    ensures
        encoded(lines).len() == 4 * word_count(lines),
    decreases lines.len(),
{
    if lines.len() > 0 {
        lemma_encoded_words(lines.drop_last());
        match lines.last() {
            LineView::Ins(instruction) => {
                if let Some(opcode) = opcode_of(instruction.signature()) {
                    lemma_packed_shape(instruction, opcode);
                }
            },
            LineView::Label(_) => {},
        }
    }
}

/// In a program without an error of the first pass, entering the
/// displacements changes no length: the first lines take as many bytes in the
/// output as before.
pub proof fn lemma_body_length(lines: Seq<LineView>, count: int)
    requires
        first_pass_error(lines) is None,
        0 <= count <= lines.len(),
    ensures
        body(lines, count as nat).len() == encoded(lines.take(count)).len(),
    decreases count,
{
    if count > 0 {
        lemma_body_length(lines, count - 1);
        lemma_encoded_step(lines, count - 1);
        lemma_line_without_error(lines, count - 1);
        match lines[count - 1] {
            LineView::Ins(instruction) => {
                lemma_packed_shape(instruction, opcode_of(instruction.signature())->0);
            },
            LineView::Label(_) => {},
        }
    }
}

/// The output of the first lines is the beginning of the output of more lines.
pub proof fn lemma_body_prefix(lines: Seq<LineView>, count: int, total: int)
    requires
        0 <= count <= total,
    ensures
        body(lines, count as nat).len() <= body(lines, total as nat).len(),
        body(lines, total as nat).take(body(lines, count as nat).len() as int) == body(
            lines,
            count as nat,
        ),
    decreases total - count,
{
    if count < total {
        lemma_body_prefix(lines, count, total - 1);
    }
}

/// A label that a line defines has a location.
pub proof fn lemma_defined_label_has_location(lines: Seq<LineView>, index: int, name: Seq<char>)
    requires
        0 <= index < lines.len(),
        lines[index] == LineView::Label(name),
    ensures
        label_location(lines, name) is Some,
    decreases lines.len(),
{
    if index < lines.len() - 1 {
        lemma_defined_label_has_location(lines.drop_last(), index, name);
    }
}

/// In a program without an error of the first pass, the location of a label
/// is the location of the line that defines it.
pub proof fn lemma_label_location(lines: Seq<LineView>, index: int, name: Seq<char>)
    requires
        first_pass_error(lines) is None,
        0 <= index < lines.len(),
        lines[index] == LineView::Label(name),
    ensures
        label_location(lines, name) == Some(location_of(lines, index)),
    decreases lines.len(),
{
    let shorter = lines.drop_last();
    if index < lines.len() - 1 {
        assert(shorter.take(index) =~= lines.take(index));
        lemma_label_location(shorter, index, name);
    }
}

/// The number that three bytes stand for in two's complement, most
/// significant byte first.
pub open spec fn displacement_value(bytes: Seq<u8>) -> int {
    let unsigned = bytes[0] * 0x1_0000 + bytes[1] * 0x100 + bytes[2];
    if unsigned >= 0x80_0000 {
        unsigned - 0x100_0000
    } else {
        unsigned
    }
}

/// The three bytes of a displacement stand for the displacement, as long as
/// 24 bits with a sign can hold it; beyond that they stand for its low 24 bits.
pub proof fn law_displacement_bytes(displacement: int)
    ensures
        displacement_bytes(displacement).len() == 3,
        (displacement_value(displacement_bytes(displacement)) - displacement) % 0x100_0000 == 0,
        -0x80_0000 <= displacement < 0x80_0000 ==> displacement_value(
            displacement_bytes(displacement),
        ) == displacement,
{
    let unsigned = displacement % 0x100_0000;
    let quotient = displacement / 0x100_0000;
    let bytes = displacement_bytes(displacement);
    assert(displacement == quotient * 0x100_0000 + unsigned);
    assert(unsigned == (unsigned / 0x1_0000) * 0x1_0000 + unsigned % 0x1_0000);
    assert(unsigned % 0x1_0000 == (unsigned / 0x100 % 256) * 0x100 + unsigned % 0x100);
    assert(bytes[0] == unsigned / 0x1_0000);
    assert(bytes[1] == unsigned / 0x100 % 256);
    assert(bytes[2] == unsigned % 256);
    let value = displacement_value(bytes);
    if unsigned >= 0x80_0000 {
        assert(value - displacement == (-quotient - 1) * 0x100_0000);
    } else {
        assert(value - displacement == (-quotient) * 0x100_0000);
    }
}

/// Where a program assembles, every instruction stands at its location: at
/// four times the number of words before it, the output holds the bytes of
/// the instruction. From the opcode on they are the bytes of its encoding,
/// and so are the three bytes before the opcode unless the instruction refers
/// to a label.
pub proof fn law_instruction_stands_at_its_location(lines: Seq<LineView>, index: int)
    requires
        0 <= index < lines.len(),
        lines[index] is Ins,
        assembled(lines) is Ok,
    ensures
        encoding_of(lines[index]->Ins_0) is Some,
        ({
            let bytes = assembled(lines)->Ok_0;
            let encoding = encoding_of(lines[index]->Ins_0)->0;
            let at = 4 * location_of(lines, index);
            &&& 0 <= at && at + encoding.len() <= bytes.len()
            &&& bytes.subrange(at, at + encoding.len()) == final_encoding(lines, index)
            &&& bytes.subrange(at + 3, at + encoding.len()) == encoding.skip(3)
            &&& target_of(lines[index]) is None ==> bytes.subrange(at, at + encoding.len())
                == encoding
        }),
{
    let bytes = assembled(lines)->Ok_0;
    let total = lines.len() as int;
    let at = 4 * location_of(lines, index);
    let instruction = lines[index]->Ins_0;
    lemma_line_without_error(lines, index);
    lemma_packed_shape(instruction, opcode_of(instruction.signature())->0);
    lemma_encoded_words(lines.take(index));
    lemma_body_length(lines, index);
    lemma_body_length(lines, index + 1);
    lemma_encoded_step(lines, index);
    lemma_body_prefix(lines, index + 1, total);
    let placed = final_encoding(lines, index);
    let upto = body(lines, (index + 1) as nat);
    assert forall|k: int| 0 <= k < placed.len() implies bytes[at + k] == placed[k] by {
        assert(body(lines, total as nat).take(upto.len() as int)[at + k] == upto[at + k]);
    }
    assert(bytes.subrange(at, at + placed.len()) =~= placed);
    assert(bytes.subrange(at + 3, at + placed.len()) =~= placed.skip(3));
}

/// Where a program assembles, every instruction that refers to a label holds
/// the distance to it: the first three bytes of the instruction's header are
/// the displacement from the location of the instruction to the location of
/// the line that defines the label. The distance is counted in words, and is
/// negative where the label stands before the instruction. The opcode stays
/// where it was.
pub proof fn law_jump_holds_distance_to_label(
    lines: Seq<LineView>,
    jump: int,
    label: int,
    name: Seq<char>,
)
    requires
        0 <= jump < lines.len(),
        0 <= label < lines.len(),
        target_of(lines[jump]) == Some(name),
        lines[label] == LineView::Label(name),
        assembled(lines) is Ok,
    ensures
        ({
            let bytes = assembled(lines)->Ok_0;
            let at = 4 * location_of(lines, jump);
            let distance = location_of(lines, label) - location_of(lines, jump);
            &&& 0 <= at && at + 4 <= bytes.len()
            &&& bytes.subrange(at, at + 3) == displacement_bytes(distance)
            &&& -0x80_0000 <= distance < 0x80_0000 ==> displacement_value(
                bytes.subrange(at, at + 3),
            ) == distance
            &&& Some(bytes[at + 3]) == opcode_of(lines[jump]->Ins_0.signature())
        }),
{
    let bytes = assembled(lines)->Ok_0;
    let at = 4 * location_of(lines, jump);
    let instruction = lines[jump]->Ins_0;
    let length = encoded_length(instruction) as int;
    law_instruction_stands_at_its_location(lines, jump);
    lemma_label_location(lines, label, name);
    lemma_packed_shape(instruction, opcode_of(instruction.signature())->0);
    law_displacement_bytes(location_of(lines, label) - location_of(lines, jump));
    let placed = bytes.subrange(at, at + length);
    assert(bytes.subrange(at, at + 3) =~= placed.take(3));
    assert(bytes[at + 3] == placed[3]);
}

/// Where a program assembles, the output ends in the word of `halt`, and is
/// as long as the instructions of the program, and four bytes longer where
/// the last instruction of the program is not a `halt`.
pub proof fn law_output_ends_in_halt(lines: Seq<LineView>)
    requires
        assembled(lines) is Ok,
    ensures
        ({
            let bytes = assembled(lines)->Ok_0;
            &&& bytes.len() >= 4
            &&& bytes.len() % 4 == 0
            &&& bytes.skip(bytes.len() - 4) == halt_word()
            &&& Some(bytes[bytes.len() - 1]) == opcode_of(
                (IRCommand::Halt, IRParamType::Absent, IRParamType::Absent),
            )
            &&& bytes.len() == encoded(lines).len() + (if ends_with_halt(lines) {
                0int
            } else {
                4int
            })
        }),
{
    let total = lines.len() as int;
    lemma_body_length(lines, total);
    assert(lines.take(total) =~= lines);
    lemma_encoded_words(lines);
    if ends_with_halt(lines) {
        lemma_body_ends_in_halt(lines, total);
    }
    let bytes = assembled(lines)->Ok_0;
    assert(bytes.skip(bytes.len() - 4) =~= halt_word());
}

/// Where the last of the first lines that is an instruction is a `halt`, the
/// output of these lines ends in the word of `halt`.
proof fn lemma_body_ends_in_halt(lines: Seq<LineView>, count: int)
    requires
        first_pass_error(lines) is None,
        0 <= count <= lines.len(),
        ends_with_halt(lines.take(count)),
    ensures
        body(lines, count as nat).len() >= 4,
        body(lines, count as nat).skip(body(lines, count as nat).len() - 4) == halt_word(),
    decreases count,
{
    assert(lines.take(count).drop_last() =~= lines.take(count - 1));
    match lines[count - 1] {
        LineView::Ins(instruction) => {
            lemma_line_without_error(lines, count - 1);
            lemma_packed_shape(instruction, HALT_INSTRUCTION);
            assert(final_encoding(lines, count - 1) =~= halt_word());
            let whole = body(lines, count as nat);
            assert(whole.skip(whole.len() - 4) =~= halt_word());
        },
        LineView::Label(_) => {
            lemma_body_ends_in_halt(lines, count - 1);
            assert(body(lines, count as nat) =~= body(lines, (count - 1) as nat));
        },
    }
}

/// Whether a program ends in `halt` is a matter of its instructions: the
/// definition of a label behind the last instruction changes nothing of it,
/// so a `halt` with labels behind it gets no second `halt`.
pub proof fn law_labels_do_not_hide_the_halt(lines: Seq<LineView>, name: Seq<char>)
    ensures
        ends_with_halt(lines.push(LineView::Label(name))) == ends_with_halt(lines),
        closing(lines.push(LineView::Label(name))) == closing(lines),
{
    assert(lines.push(LineView::Label(name)).drop_last() =~= lines);
}

/// The line of a `halt` instruction.
pub open spec fn halt_line(line_number: usize) -> LineView {
    LineView::Ins(
        InstructionView { command: IRCommand::Halt, param1: None, param2: None, line_number },
    )
}

proof fn lemma_halt_changes_no_label(lines: Seq<LineView>, line_number: usize, name: Seq<char>)
    ensures
        label_location(lines.push(halt_line(line_number)), name) == label_location(lines, name),
{
    assert(lines.push(halt_line(line_number)).drop_last() =~= lines);
}

proof fn lemma_halt_changes_no_line(lines: Seq<LineView>, line_number: usize, count: int)
    requires
        0 <= count <= lines.len(),
    ensures
        second_pass_error(lines.push(halt_line(line_number)), count as nat) == second_pass_error(
            lines,
            count as nat,
        ),
        body(lines.push(halt_line(line_number)), count as nat) == body(lines, count as nat),
    decreases count,
{
    let longer = lines.push(halt_line(line_number));
    if count > 0 {
        lemma_halt_changes_no_line(lines, line_number, count - 1);
        assert(longer.take(count - 1) =~= lines.take(count - 1));
        match target_of(lines[count - 1]) {
            Some(name) => {
                lemma_halt_changes_no_label(lines, line_number, name);
            },
            None => {},
        }
    }
}

/// The closing `halt` is the `halt` that the program lacks: a program whose
/// last instruction is not a `halt` assembles to what it assembles to with a
/// `halt` as one more line, error for error and byte for byte. A program that
/// got its `halt` this way gets no second one.
pub proof fn law_halt_is_appended_once(lines: Seq<LineView>, line_number: usize)
    requires
        !ends_with_halt(lines),
    ensures
        assembled(lines.push(halt_line(line_number))) == assembled(lines),
        ends_with_halt(lines.push(halt_line(line_number))),
        closing(lines.push(halt_line(line_number))) == Seq::<u8>::empty(),
{
    let halt = halt_line(line_number);
    let longer = lines.push(halt);
    let total = lines.len() as int;
    assert(longer.drop_last() =~= lines);
    lemma_halt_changes_no_line(lines, line_number, total);
    lemma_packed_shape(halt->Ins_0, HALT_INSTRUCTION);
}

/// The value that four bytes stand for in two's complement, most significant
/// byte first.
pub open spec fn immediate_value(bytes: Seq<u8>) -> int {
    let unsigned = bytes[0] * 0x100_0000 + bytes[1] * 0x1_0000 + bytes[2] * 0x100 + bytes[3];
    if unsigned >= 0x8000_0000 {
        unsigned - 0x1_0000_0000
    } else {
        unsigned
    }
}

/// The four bytes of an immediate stand for its value, whatever the value.
pub proof fn law_immediate_bytes(value: i32)
    ensures
        immediate_bytes(value).len() == 4,
        immediate_value(immediate_bytes(value)) == value,
{
    let unsigned = unsigned_of(value);
    let bytes = immediate_bytes(value);
    assert(unsigned == (unsigned / 0x100_0000) * 0x100_0000 + unsigned % 0x100_0000);
    assert(unsigned % 0x100_0000 == (unsigned / 0x1_0000 % 256) * 0x1_0000 + unsigned % 0x1_0000);
    assert(unsigned % 0x1_0000 == (unsigned / 0x100 % 256) * 0x100 + unsigned % 0x100);
    assert(bytes[0] == unsigned / 0x100_0000);
    assert(bytes[1] == unsigned / 0x1_0000 % 256);
    assert(bytes[2] == unsigned / 0x100 % 256);
    assert(bytes[3] == unsigned % 256);
}

/// The byte of an immediate that is packed into the header is the value
/// itself where the value is within 0 to 255, which is where the instruction
/// gives no warning.
pub proof fn law_narrow_immediate(value: i32)
    ensures
        !exceeds_byte(value) <==> low_byte(value) == value,
{
}

/// An immediate that goes to the header is cut down to its low eight bits
/// and fills the header byte that was free; every other byte stays, and so
/// does the length. The next register goes one byte further down.
pub proof fn law_byte_immediate_fills_header(
    encoding: PartialEncoding,
    param: Option<ParameterView>,
    value: i32,
)
    requires
        encoding.bytes.len() >= 4,
        1 <= encoding.next_register <= 2,
        param == Some(ParameterView::Imm(value)) || param == Some(ParameterView::MemImm(value)),
    ensures
        ({
            let after = with_parameter(encoding, param, true);
            &&& after.bytes == encoding.bytes.update(encoding.next_register, low_byte(value))
            &&& after.bytes.len() == encoding.bytes.len()
            &&& after.bytes[encoding.next_register] == low_byte(value)
            &&& forall|i: int|
                0 <= i < encoding.bytes.len() && i != encoding.next_register ==> after.bytes[i]
                    == encoding.bytes[i]
            &&& after.next_register == encoding.next_register - 1
        }),
        low_byte(value) == (value & 0xff) as u8,
        low_byte(value) == value <==> 0 <= value <= 255,
{
    let byte = value as u8;
    assert(byte == (value as int % 256) as u8) by (bit_vector)
        requires
            byte == value as u8,
    ;
    assert(byte == (value & 0xff) as u8) by (bit_vector)
        requires
            byte == value as u8,
    ;
}

/// An immediate that does not go to the header is appended: exactly four
/// bytes follow what was there, the value in two's complement with the most
/// significant byte first. The header and the place of the next register stay.
pub proof fn law_immediate_is_appended(
    encoding: PartialEncoding,
    param: Option<ParameterView>,
    value: i32,
)
    requires
        param == Some(ParameterView::Imm(value)) || param == Some(ParameterView::MemImm(value)),
    ensures
        ({
            let after = with_parameter(encoding, param, false);
            let length = encoding.bytes.len() as int;
            &&& after.bytes == encoding.bytes + immediate_bytes(value)
            &&& after.bytes.len() == length + 4
            &&& after.bytes.take(length) == encoding.bytes
            &&& after.bytes.skip(length) == immediate_bytes(value)
            &&& immediate_value(after.bytes.skip(length)) == value
            &&& after.next_register == encoding.next_register
        }),
{
    law_immediate_bytes(value);
    let after = with_parameter(encoding, param, false);
    let length = encoding.bytes.len() as int;
    assert(after.bytes.take(length) =~= encoding.bytes);
    assert(after.bytes.skip(length) =~= immediate_bytes(value));
}

/// A shift by an immediate is one word: the opcode, the register in byte 2
/// and the low eight bits of the immediate in byte 1. It gives a warning
/// exactly if the immediate is not within 0 to 255, and is encoded all the same.
pub proof fn law_shift_by_immediate(instruction: InstructionView)
    requires
        has_byte_immediate(instruction.signature()),
    ensures
        instruction.param1 is Some && instruction.param1->0 is Reg,
        instruction.param2 is Some && instruction.param2->0 is Imm,
        ({
            let register = instruction.param1->0->Reg_0;
            let value = instruction.param2->0->Imm_0;
            &&& opcode_of(instruction.signature()) is Some
            &&& encoding_of(instruction) == Some(
                seq![
                    0u8,
                    low_byte(value),
                    register.spec_code(),
                    opcode_of(instruction.signature())->0,
                ],
            )
            &&& range_warning(instruction) is Some <==> (value < 0 || value > 255)
        }),
{
    let opcode = opcode_of(instruction.signature())->0;
    assert(packed(instruction, opcode) =~= seq![
        0u8,
        low_byte(instruction.param2->0->Imm_0),
        instruction.param1->0->Reg_0.spec_code(),
        opcode,
    ]);
}

/// An instruction with a register and an immediate that is no shift is two
/// words: the header with the register in byte 2, and the four bytes of the
/// immediate. It gives no warning, whatever the value.
pub proof fn law_register_and_immediate(instruction: InstructionView)
    requires
        encoding_of(instruction) is Some,
        !has_byte_immediate(instruction.signature()),
        instruction.signature().1 == IRParamType::Register,
        instruction.signature().2 == IRParamType::Immediate,
    ensures
        ({
            let register = instruction.param1->0->Reg_0;
            let value = instruction.param2->0->Imm_0;
            let bytes = encoding_of(instruction)->0;
            &&& bytes == seq![0u8, 0u8, register.spec_code(), opcode_of(instruction.signature())->0]
                + immediate_bytes(value)
            &&& bytes.len() == 8
            &&& immediate_value(bytes.skip(4)) == value
            &&& range_warning(instruction) is None
        }),
{
    let opcode = opcode_of(instruction.signature())->0;
    let value = instruction.param2->0->Imm_0;
    let header = seq![0u8, 0u8, instruction.param1->0->Reg_0.spec_code(), opcode];
    law_immediate_bytes(value);
    assert(packed(instruction, opcode) =~= header + immediate_bytes(value));
    assert((header + immediate_bytes(value)).skip(4) =~= immediate_bytes(value));
}

/// The register that a code stands for.
pub open spec fn register_coded(code: u8) -> Option<IRRegister> {
    if code == 1 {
        Some(IRRegister::A)
    } else if code == 2 {
        Some(IRRegister::B)
    } else if code == 3 {
        Some(IRRegister::C)
    } else if code == 4 {
        Some(IRRegister::D)
    } else if code == 5 {
        Some(IRRegister::IP)
    } else if code == 6 {
        Some(IRRegister::SP)
    } else {
        None
    }
}

/// The code of a register is a byte from one to six that leads back to the register.
pub proof fn law_register_code(register: IRRegister)
    ensures
        1 <= register.spec_code() <= 6,
        register_coded(register.spec_code()) == Some(register),
{
}

/// An encoded instruction is one, two or three words long, and its opcode is
/// the last byte of the first word. Only `mov` from an immediate to memory at
/// an immediate takes three words.
pub proof fn law_encoding_shape(instruction: InstructionView)
    requires
        encoding_of(instruction) is Some,
    ensures
        ({
            let bytes = encoding_of(instruction)->0;
            &&& bytes.len() == encoded_length(instruction)
            &&& bytes.len() == 4 || bytes.len() == 8 || bytes.len() == 12
            &&& Some(bytes[3]) == opcode_of(instruction.signature())
            &&& bytes.len() == 12 <==> instruction.signature() == (
                IRCommand::Mov,
                IRParamType::MemoryAtImmediate,
                IRParamType::Immediate,
            )
        }),
{
    lemma_packed_shape(instruction, opcode_of(instruction.signature())->0);
}

/// The bytes of an instruction tell what was encoded: two instructions with
/// the same bytes have the same command and operands of the same kinds, and
/// the same registers and immediates in them. What the bytes do not hold is
/// the name of a label, the number of the source line, and the high bits of
/// an immediate that the instruction gives a warning for.
pub proof fn law_encoding_determines_instruction(one: InstructionView, other: InstructionView)
    requires
        encoding_of(one) is Some,
        encoding_of(one) == encoding_of(other),
        range_warning(one) is None,
        range_warning(other) is None,
    ensures
        one.signature() == other.signature(),
        kind_of(one.param1) != IRParamType::Label ==> one.param1 == other.param1,
        one.param2 == other.param2,
{
    let opcode = opcode_of(one.signature())->0;
    lemma_packed_shape(one, opcode);
    lemma_packed_shape(other, opcode_of(other.signature())->0);
    law_opcode_determines_signature(one.signature());
    law_opcode_determines_signature(other.signature());
    let narrow = has_byte_immediate(one.signature());
    lemma_operand_values(one.param1, other.param1, one.param2, other.param2, narrow, opcode);
}

/// The value of an immediate or the register of an operand, as a number.
spec fn payload(param: Option<ParameterView>) -> int {
    match param {
        Some(ParameterView::Reg(register)) | Some(ParameterView::MemReg(register)) => {
            register.spec_code() as int
        },
        Some(ParameterView::Imm(value)) | Some(ParameterView::MemImm(value)) => value as int,
        _ => 0,
    }
}

proof fn lemma_same_payload(one: Option<ParameterView>, other: Option<ParameterView>)
    requires
        kind_of(one) == kind_of(other),
        kind_of(one) != IRParamType::Label,
        payload(one) == payload(other),
    ensures
        one == other,
{
    match one {
        Some(ParameterView::Reg(register)) | Some(ParameterView::MemReg(register)) => {
            law_register_code(register);
            match other {
                Some(ParameterView::Reg(second)) | Some(ParameterView::MemReg(second)) => {
                    law_register_code(second);
                },
                _ => {},
            }
        },
        _ => {},
    }
}

proof fn lemma_operand_values(
    first: Option<ParameterView>,
    other_first: Option<ParameterView>,
    second: Option<ParameterView>,
    other_second: Option<ParameterView>,
    narrow: bool,
    opcode: u8,
)
    requires
        kind_of(first) == kind_of(other_first),
        kind_of(second) == kind_of(other_second),
        kind_of(second) != IRParamType::Label,
        narrow ==> kind_of(first) == IRParamType::Register && (second matches Some(
            ParameterView::Imm(value),
        ) && !exceeds_byte(value)) && (other_second matches Some(ParameterView::Imm(value))
            && !exceeds_byte(value)),
        with_parameter(with_parameter(header_of(opcode), first, narrow), second, narrow).bytes
            == with_parameter(
            with_parameter(header_of(opcode), other_first, narrow),
            other_second,
            narrow,
        ).bytes,
    ensures
        kind_of(first) != IRParamType::Label ==> first == other_first,
        second == other_second,
{
    let start = header_of(opcode);
    let middle = with_parameter(start, first, narrow);
    let other_middle = with_parameter(start, other_first, narrow);
    lemma_payload_in_bytes(start, first, narrow);
    lemma_payload_in_bytes(start, other_first, narrow);
    lemma_payload_in_bytes(middle, second, narrow);
    lemma_payload_in_bytes(other_middle, other_second, narrow);
    lemma_kept_bytes(middle, second, narrow);
    lemma_kept_bytes(other_middle, other_second, narrow);
    if kind_of(first) != IRParamType::Label {
        lemma_same_payload(first, other_first);
    }
    lemma_same_payload(second, other_second);
}

/// Where an operand leaves its payload: a register in the header byte that
/// was free, an immediate behind the bytes so far.
proof fn lemma_payload_in_bytes(encoding: PartialEncoding, param: Option<ParameterView>, narrow: bool)
    requires
        encoding.bytes.len() >= 4,
        0 <= encoding.next_register <= 2,
        narrow ==> (param matches Some(ParameterView::Imm(value)) ==> !exceeds_byte(value)),
        narrow ==> !(param matches Some(ParameterView::MemImm(_))),
    ensures
        ({
            let after = with_parameter(encoding, param, narrow);
            let at = encoding.bytes.len() as int;
            match kind_of(param) {
                IRParamType::Register | IRParamType::MemoryAtRegister => {
                    after.bytes[encoding.next_register] == payload(param)
                },
                IRParamType::Immediate | IRParamType::MemoryAtImmediate => if narrow {
                    after.bytes[encoding.next_register] == payload(param)
                } else {
                    after.bytes.len() == at + 4 && immediate_value(after.bytes.subrange(at, at + 4))
                        == payload(param)
                },
                _ => after == encoding,
            }
        }),
{
    match param {
        Some(ParameterView::Imm(value)) | Some(ParameterView::MemImm(value)) => {
            if narrow {
                law_narrow_immediate(value);
            } else {
                law_immediate_bytes(value);
            }
        },
        _ => {},
    }
}

/// Packing an operand keeps the bytes that were there, but for the header byte
/// that it fills.
proof fn lemma_kept_bytes(encoding: PartialEncoding, param: Option<ParameterView>, narrow: bool)
    requires
        encoding.bytes.len() >= 4,
        0 <= encoding.next_register <= 2,
    ensures
        ({
            let after = with_parameter(encoding, param, narrow);
            &&& after.bytes.len() >= encoding.bytes.len()
            &&& encoding.next_register - 1 <= after.next_register <= encoding.next_register
            &&& forall|i: int|
                0 <= i < encoding.bytes.len() && (i != encoding.next_register || after.next_register
                    == encoding.next_register) ==> after.bytes[i] == encoding.bytes[i]
        }),
{
}

/// A program that gets through the first pass has given every warning that
/// its instructions give rise to.
pub proof fn law_warnings_are_complete(lines: Seq<LineView>)
    requires
        first_pass_error(lines) is None,
    ensures
        warnings_issued(lines) == warnings_of(lines),
    decreases lines.len(),
{
    if lines.len() > 0 {
        law_warnings_are_complete(lines.drop_last());
    }
}

/// Whether every instruction of a program has an opcode.
pub open spec fn all_encodable(lines: Seq<LineView>) -> bool {
    forall|i: int|
        0 <= i < lines.len() ==> (#[trigger] lines[i] matches LineView::Ins(instruction)
            ==> encoding_of(instruction) is Some)
}

proof fn lemma_first_pass_error_is_duplicate(lines: Seq<LineView>)
    requires
        all_encodable(lines),
    ensures
        first_pass_error(lines) is Some ==> first_pass_error(lines)->0 is DuplicateLabel,
    decreases lines.len(),
{
    if lines.len() > 0 {
        let shorter = lines.drop_last();
        assert forall|i: int| 0 <= i < shorter.len() implies (#[trigger] shorter[i] matches LineView::Ins(
            instruction,
        ) ==> encoding_of(instruction) is Some) by {
        }
        lemma_first_pass_error_is_duplicate(shorter);
    }
}

proof fn lemma_first_pass_error_kind(lines: Seq<LineView>)
    ensures
        first_pass_error(lines) is Some ==> !(first_pass_error(lines)->0 is UnresolvedLabel),
    decreases lines.len(),
{
    if lines.len() > 0 {
        lemma_first_pass_error_kind(lines.drop_last());
    }
}

/// A program that defines a label twice does not assemble. The error is one
/// of the first pass, never that of a label left undefined, and it is that of
/// a duplicate label where every instruction of the program has an opcode. If
/// the second definition is the first line at fault, the error names its label.
pub proof fn law_duplicate_label_fails(
    lines: Seq<LineView>,
    first: int,
    second: int,
    name: Seq<char>,
)
    requires
        0 <= first < second < lines.len(),
        lines[first] == LineView::Label(name),
        lines[second] == LineView::Label(name),
    ensures
        assembled(lines) is Err,
        first_pass_error(lines) == Some(assembled(lines)->Err_0),
        !(assembled(lines)->Err_0 is UnresolvedLabel),
        all_encodable(lines) ==> assembled(lines)->Err_0 is DuplicateLabel,
        first_pass_error(lines.take(second)) is None ==> assembled(lines) == Err::<
            Seq<u8>,
            AssembleErrorView,
        >(AssembleErrorView::DuplicateLabel(name)),
{
    let upto = lines.take(second + 1);
    assert(upto.drop_last() =~= lines.take(second));
    lemma_defined_label_has_location(lines.take(second), first, name);
    lemma_first_pass_error_prefix(lines, second + 1);
    lemma_first_pass_error_kind(lines);
    if all_encodable(lines) {
        lemma_first_pass_error_is_duplicate(lines);
    }
}

/// A program in which an instruction refers to a label that no line defines
/// does not assemble.
pub proof fn law_unresolved_label_fails(lines: Seq<LineView>, jump: int, name: Seq<char>)
    requires
        0 <= jump < lines.len(),
        target_of(lines[jump]) == Some(name),
        forall|i: int| 0 <= i < lines.len() ==> #[trigger] lines[i] != LineView::Label(name),
    ensures
        assembled(lines) is Err,
{
    lemma_undefined_label_has_no_location(lines, name);
    lemma_second_pass_error_prefix(lines, jump + 1, lines.len() as int);
}

proof fn lemma_undefined_label_has_no_location(lines: Seq<LineView>, name: Seq<char>)
    requires
        forall|i: int| 0 <= i < lines.len() ==> #[trigger] lines[i] != LineView::Label(name),
    ensures
        label_location(lines, name) is None,
    decreases lines.len(),
{
    if lines.len() > 0 {
        let shorter = lines.drop_last();
        assert forall|i: int| 0 <= i < shorter.len() implies #[trigger] shorter[i]
            != LineView::Label(name) by {
        }
        lemma_undefined_label_has_no_location(shorter, name);
    }
}

} // verus!
