//! The program assembler: a whole program turned into the machine's byte stream.
//!
//! The first pass encodes every instruction and notes where each label stands,
//! counted in words of four bytes. A program whose last instruction is not a
//! `halt` gets one. The second pass enters, into every instruction whose first operand is
//! a label, the distance in words from the instruction to that label.

use vstd::prelude::*;
use crate::encode::{AssembleError, AssembleErrorView, RangeWarning, encoding_of};
use crate::encode::{range_warning, unsupported};
use crate::encode::lemma_packed_shape;
use crate::ir::{IR, IRCommand, IRInstruction, IRLine, IRParameter, InstructionView, LineView};
use crate::ir::ParameterView;
use crate::opcode::{AssemblyTranslation, HALT_INSTRUCTION, opcode_of};

verus! {

/// The bytes of one line before any displacement is entered: none for the
/// definition of a label.
pub open spec fn line_encoding(line: LineView) -> Seq<u8> {
    match line {
        LineView::Ins(instruction) => match encoding_of(instruction) {
            Some(bytes) => bytes,
            None => Seq::empty(),
        },
        LineView::Label(_) => Seq::empty(),
    }
}

/// The bytes of the lines, one after another, before any displacement is entered.
pub open spec fn encoded(lines: Seq<LineView>) -> Seq<u8>
    decreases lines.len(),
{
    if lines.len() == 0 {
        Seq::empty()
    } else {
        encoded(lines.drop_last()) + line_encoding(lines.last())
    }
}

/// The number of words that the lines take.
pub open spec fn word_count(lines: Seq<LineView>) -> int {
    encoded(lines).len() as int / 4
}

/// Where the line with this index begins, in words from the start of the program.
pub open spec fn location_of(lines: Seq<LineView>, index: int) -> int {
    word_count(lines.take(index))
}

/// Where the label stands, in words from the start of the program: the
/// location of the first line that defines it.
pub open spec fn label_location(lines: Seq<LineView>, name: Seq<char>) -> Option<int>
    decreases lines.len(),
{
    if lines.len() == 0 {
        None
    } else {
        match label_location(lines.drop_last(), name) {
            Some(location) => Some(location),
            None => if lines.last() == LineView::Label(name) {
                Some(word_count(lines.drop_last()))
            } else {
                None
            },
        }
    }
}

/// What is wrong with a line, given the lines before it: an instruction that
/// the opcode table has no entry for, or a label that is defined already.
pub open spec fn line_error(before: Seq<LineView>, line: LineView) -> Option<AssembleErrorView> {
    match line {
        LineView::Ins(instruction) => if encoding_of(instruction) is None {
            Some(unsupported(instruction))
        } else {
            None
        },
        LineView::Label(name) => if label_location(before, name) is Some {
            Some(AssembleErrorView::DuplicateLabel(name))
        } else {
            None
        },
    }
}

/// The error of the first line, in source order, that has one by [`line_error`].
pub open spec fn first_pass_error(lines: Seq<LineView>) -> Option<AssembleErrorView>
    decreases lines.len(),
{
    if lines.len() == 0 {
        None
    } else {
        match first_pass_error(lines.drop_last()) {
            Some(error) => Some(error),
            None => line_error(lines.drop_last(), lines.last()),
        }
    }
}

/// The label that a line refers to: the first operand of an instruction, where
/// that is a label.
pub open spec fn target_of(line: LineView) -> Option<Seq<char>> {
    match line {
        LineView::Ins(instruction) => match instruction.param1 {
            Some(ParameterView::Label(name)) => Some(name),
            _ => None,
        },
        LineView::Label(_) => None,
    }
}

/// The error of a line that refers to a label which the program does not define.
pub open spec fn unresolved(lines: Seq<LineView>, line: LineView) -> Option<AssembleErrorView> {
    match target_of(line) {
        Some(name) => if label_location(lines, name) is None {
            Some(AssembleErrorView::UnresolvedLabel(name))
        } else {
            None
        },
        None => None,
    }
}

/// The error of the first line among the first `count` that has one by [`unresolved`].
pub open spec fn second_pass_error(lines: Seq<LineView>, count: nat) -> Option<AssembleErrorView>
    decreases count,
{
    if count == 0 {
        None
    } else {
        match second_pass_error(lines, (count - 1) as nat) {
            Some(error) => Some(error),
            None => unresolved(lines, lines[count - 1]),
        }
    }
}

/// A distance in words as three bytes: the number in two's complement of 24
/// bits, most significant byte first.
pub open spec fn displacement_bytes(displacement: int) -> Seq<u8> {
    let unsigned = displacement % 0x100_0000;
    seq![(unsigned / 0x1_0000) as u8, (unsigned / 0x100 % 256) as u8, (unsigned % 256) as u8]
}

/// The bytes of an instruction with a displacement entered into bytes 0 to 2
/// of its header. Byte 3, the opcode, and what follows stay.
pub open spec fn with_displacement(bytes: Seq<u8>, displacement: int) -> Seq<u8> {
    displacement_bytes(displacement) + bytes.skip(3)
}

/// The bytes that the line with this index has in the output.
pub open spec fn final_encoding(lines: Seq<LineView>, index: int) -> Seq<u8> {
    match target_of(lines[index]) {
        Some(name) => match label_location(lines, name) {
            Some(target) => with_displacement(
                line_encoding(lines[index]),
                target - location_of(lines, index),
            ),
            None => line_encoding(lines[index]),
        },
        None => line_encoding(lines[index]),
    }
}

/// The bytes that the first `count` lines have in the output.
pub open spec fn body(lines: Seq<LineView>, count: nat) -> Seq<u8>
    decreases count,
{
    if count == 0 {
        Seq::empty()
    } else {
        body(lines, (count - 1) as nat) + final_encoding(lines, count - 1)
    }
}

/// The word that stands for `halt`.
pub open spec fn halt_word() -> Seq<u8> {
    seq![0u8, 0u8, 0u8, HALT_INSTRUCTION]
}

/// The last instruction of a program, whatever definitions of labels follow it.
pub open spec fn last_instruction(lines: Seq<LineView>) -> Option<InstructionView>
    decreases lines.len(),
{
    if lines.len() == 0 {
        None
    } else {
        match lines.last() {
            LineView::Ins(instruction) => Some(instruction),
            LineView::Label(_) => last_instruction(lines.drop_last()),
        }
    }
}

/// Whether the last instruction of the program is a `halt`. A program without
/// an instruction does not end in one.
pub open spec fn ends_with_halt(lines: Seq<LineView>) -> bool {
    last_instruction(lines) matches Some(instruction) && instruction.command == IRCommand::Halt
}

/// What closes the output: a `halt` word, unless the last instruction is a
/// `halt` already.
pub open spec fn closing(lines: Seq<LineView>) -> Seq<u8> {
    if ends_with_halt(lines) {
        Seq::empty()
    } else {
        halt_word()
    }
}

/// What assembling a program gives.
///
/// It fails with the error of the first line that cannot be encoded or that
/// defines a label again; failing that, with the error of the first line that
/// refers to an undefined label. Otherwise it gives the bytes of all lines in
/// order, each displacement entered, and the closing `halt` word.
pub open spec fn assembled(lines: Seq<LineView>) -> Result<Seq<u8>, AssembleErrorView> {
    match first_pass_error(lines) {
        Some(error) => Err(error),
        None => match second_pass_error(lines, lines.len()) {
            Some(error) => Err(error),
            None => Ok(body(lines, lines.len()) + closing(lines)),
        },
    }
}

/// The warnings of the instructions of a program, in source order.
pub open spec fn warnings_of(lines: Seq<LineView>) -> Seq<RangeWarning>
    decreases lines.len(),
{
    if lines.len() == 0 {
        Seq::empty()
    } else {
        let before = warnings_of(lines.drop_last());
        match lines.last() {
            LineView::Ins(instruction) => match range_warning(instruction) {
                Some(warning) => before.push(warning),
                None => before,
            },
            LineView::Label(_) => before,
        }
    }
}

/// The warnings that assembling a program gives: those of its instructions
/// in source order, up to the first line that stops the first pass. A program
/// that fails only in the second pass has given all its warnings by then.
pub open spec fn warnings_issued(lines: Seq<LineView>) -> Seq<RangeWarning>
    decreases lines.len(),
{
    if lines.len() == 0 {
        Seq::empty()
    } else if first_pass_error(lines) is Some {
        warnings_issued(lines.drop_last())
    } else {
        let before = warnings_issued(lines.drop_last());
        match lines.last() {
            LineView::Ins(instruction) => match range_warning(instruction) {
                Some(warning) => before.push(warning),
                None => before,
            },
            LineView::Label(_) => before,
        }
    }
}

/// A label that the first pass has seen, and where it stands.
struct LabelLocation {
    name: String,
    location: usize,
}

/// The location that a list of labels holds for a name: that of the first entry with the name.
spec fn recorded(labels: Seq<LabelLocation>, name: Seq<char>) -> Option<int>
    decreases labels.len(),
{
    if labels.len() == 0 {
        None
    } else {
        match recorded(labels.drop_last(), name) {
            Some(location) => Some(location),
            None => if labels.last().name@ == name {
                Some(labels.last().location as int)
            } else {
                None
            },
        }
    }
}

proof fn lemma_recorded_prefix(labels: Seq<LabelLocation>, name: Seq<char>, count: int)
    requires
        0 <= count <= labels.len(),
        recorded(labels.take(count), name) is Some,
    ensures
        recorded(labels, name) == recorded(labels.take(count), name),
    decreases labels.len(),
{
    if count < labels.len() {
        assert(labels.drop_last().take(count) =~= labels.take(count));
        lemma_recorded_prefix(labels.drop_last(), name, count);
    } else {
        assert(labels.take(count) =~= labels);
    }
}

/// Looks a name up among the labels seen.
fn find_label(labels: &Vec<LabelLocation>, name: &String) -> (location: Option<usize>)
    ensures
        match location {
            Some(found) => recorded(labels@, name@) == Some(found as int),
            None => recorded(labels@, name@) is None,
        },
{
    let mut index: usize = 0;
    while index < labels.len()
        invariant
            index <= labels.len(),
            recorded(labels@.take(index as int), name@) is None,
        decreases labels.len() - index,
    {
        assert(labels@.take(index + 1).drop_last() =~= labels@.take(index as int));
        if labels[index].name == *name {
            proof {
                lemma_recorded_prefix(labels@, name@, index + 1);
            }
            return Some(labels[index].location);
        }
        index += 1;
    }
    assert(labels@.take(index as int) =~= labels@);
    None
}

/// The bytes of a prefix of the lines are a prefix of the bytes of all lines.
pub proof fn lemma_encoded_prefix(lines: Seq<LineView>, count: int)
    requires
        0 <= count <= lines.len(),
    ensures
        encoded(lines.take(count)).len() <= encoded(lines).len(),
        encoded(lines).take(encoded(lines.take(count)).len() as int) == encoded(lines.take(count)),
    decreases lines.len(),
{
    if count < lines.len() {
        assert(lines.drop_last().take(count) =~= lines.take(count));
        lemma_encoded_prefix(lines.drop_last(), count);
    } else {
        assert(lines.take(count) =~= lines);
        assert(encoded(lines).take(encoded(lines).len() as int) =~= encoded(lines));
    }
}

/// The bytes of the lines up to and with a line are those before it, then its own.
pub proof fn lemma_encoded_step(lines: Seq<LineView>, index: int)
    requires
        0 <= index < lines.len(),
    ensures
        encoded(lines.take(index + 1)) == encoded(lines.take(index)) + line_encoding(lines[index]),
{
    assert(lines.take(index + 1).drop_last() =~= lines.take(index));
}

/// An error among the first lines is the error of the whole program.
pub proof fn lemma_first_pass_error_prefix(lines: Seq<LineView>, count: int)
    requires
        0 <= count <= lines.len(),
        first_pass_error(lines.take(count)) is Some,
    ensures
        first_pass_error(lines) == first_pass_error(lines.take(count)),
    decreases lines.len(),
{
    if count < lines.len() {
        assert(lines.drop_last().take(count) =~= lines.take(count));
        lemma_first_pass_error_prefix(lines.drop_last(), count);
    } else {
        assert(lines.take(count) =~= lines);
    }
}

/// No warning is given behind the line that stops the first pass.
pub proof fn lemma_warnings_stop_at_error(lines: Seq<LineView>, count: int)
    requires
        0 <= count <= lines.len(),
        first_pass_error(lines.take(count)) is Some,
    ensures
        warnings_issued(lines) == warnings_issued(lines.take(count)),
    decreases lines.len(),
{
    if count < lines.len() {
        lemma_first_pass_error_prefix(lines, count);
        assert(lines.drop_last().take(count) =~= lines.take(count));
        lemma_warnings_stop_at_error(lines.drop_last(), count);
    } else {
        assert(lines.take(count) =~= lines);
    }
}

/// An unresolved label among the first lines is the error of the whole second pass.
pub proof fn lemma_second_pass_error_prefix(lines: Seq<LineView>, count: int, total: int)
    requires
        0 <= count <= total,
        second_pass_error(lines, count as nat) is Some,
    ensures
        second_pass_error(lines, total as nat) == second_pass_error(lines, count as nat),
    decreases total - count,
{
    if count < total {
        lemma_second_pass_error_prefix(lines, count, total - 1);
    }
}

/// In a program without an error of the first pass, no line has one.
pub proof fn lemma_line_without_error(lines: Seq<LineView>, index: int)
    requires
        0 <= index < lines.len(),
        first_pass_error(lines) is None,
    ensures
        line_error(lines.take(index), lines[index]) is None,
    decreases lines.len(),
{
    if index < lines.len() - 1 {
        assert(lines.drop_last().take(index) =~= lines.take(index));
        lemma_line_without_error(lines.drop_last(), index);
    }
}

/// The three bytes of the distance from one location to another.
fn displacement(target: usize, location: usize) -> (bytes: [u8; 3])
    ensures
        bytes@ == displacement_bytes(target - location),
{
    // The distance modulo 2^24, without leaving the unsigned numbers.
    let unsigned: usize = if target >= location {
        (target - location) % 0x100_0000
    } else {
        let behind: usize = (location - target) % 0x100_0000;
        proof {
            lemma_negated_remainder(location - target);
        }
        if behind == 0 {
            0
        } else {
            0x100_0000 - behind
        }
    };
    assert(unsigned == (target - location) % 0x100_0000);
    let bytes: [u8; 3] = [
        (unsigned / 0x1_0000) as u8,
        (unsigned / 0x100 % 256) as u8,
        (unsigned % 256) as u8,
    ];
    assert(bytes@ =~= displacement_bytes(target - location));
    bytes
}

/// The remainder of a negated number: nothing where the number leaves
/// nothing, and else what its remainder lacks of 2^24.
proof fn lemma_negated_remainder(number: int)
    ensures
        (-number) % 0x100_0000 == (if number % 0x100_0000 == 0 {
            0
        } else {
            0x100_0000 - number % 0x100_0000
        }),
{
    let quotient = number / 0x100_0000;
    let remainder = number % 0x100_0000;
    assert(number == quotient * 0x100_0000 + remainder);
    if remainder == 0 {
        assert(-number == (-quotient) * 0x100_0000);
    } else {
        assert(-number == (-quotient - 1) * 0x100_0000 + (0x100_0000 - remainder));
    }
}

/// The label that an instruction refers to, if its first operand is one.
fn target_label(instruction: &IRInstruction) -> (target: Option<&String>)
    ensures
        match target {
            Some(name) => target_of(LineView::Ins(instruction@)) == Some(name@),
            None => target_of(LineView::Ins(instruction@)) is None,
        },
{
    match &instruction.param1 {
        Some(IRParameter::Label(name)) => Some(name),
        _ => None,
    }
}

/// Whether the last instruction of the program is a `halt`.
fn last_is_halt(ir: &IR) -> (halts: bool)
    ensures
        halts == ends_with_halt(ir@),
{
    let ghost lines = ir@;
    let mut count = ir.instructions.len();
    assert(lines.take(count as int) =~= lines);
    while count > 0
        invariant
            count <= ir.instructions.len(),
            lines == ir@,
            last_instruction(lines) == last_instruction(lines.take(count as int)),
        decreases count,
    {
        assert(lines.take(count as int).drop_last() =~= lines.take(count - 1));
        assert(lines.take(count as int).last() == ir.instructions@[count - 1]@);
        match &ir.instructions[count - 1] {
            IRLine::Ins(instruction) => {
                return instruction.command == IRCommand::Halt;
            },
            IRLine::Label(_) => {},
        }
        count -= 1;
    }
    false
}

/// Collects the warnings of a program: one for each instruction whose
/// immediate is cut down to a byte that cannot hold it. A program with
/// warnings still assembles.
pub fn range_warnings(ir: &IR) -> (warnings: Vec<RangeWarning>)
    ensures
        warnings@ == warnings_of(ir@),
{
    let translation = AssemblyTranslation::new();
    let mut warnings: Vec<RangeWarning> = Vec::new();
    let ghost lines = ir@;
    let mut index: usize = 0;
    while index < ir.instructions.len()
        invariant
            index <= ir.instructions.len(),
            lines == ir@,
            warnings@ == warnings_of(lines.take(index as int)),
        decreases ir.instructions.len() - index,
    {
        proof {
            assert(lines.take(index + 1).drop_last() =~= lines.take(index as int));
        }
        match &ir.instructions[index] {
            IRLine::Ins(instruction) => {
                if let Some(warning) = translation.range_warning(instruction) {
                    warnings.push(warning);
                }
            },
            IRLine::Label(_) => {},
        }
        index += 1;
    }
    assert(lines.take(index as int) =~= lines);
    warnings
}

/// Assembles a program.
///
/// The result is a flat stream of bytes that ends in a `halt` word, or the
/// error that stopped the assembly; [`assembled`] says which, for every program.
pub fn assemble(ir: IR) -> (result: Result<Vec<u8>, AssembleError>)
    ensures
        match result {
            Ok(bytes) => assembled(ir@) == Ok::<Seq<u8>, AssembleErrorView>(bytes@),
            Err(error) => assembled(ir@) == Err::<Seq<u8>, AssembleErrorView>(error@),
        },
{
    let (result, _) = assemble_with_warnings(ir);
    result
}

/// Assembles a program, and collects the warnings on the way.
///
/// The first part of the result is that of [`assemble`]. The second part is
/// the warnings of the instructions that were encoded before the assembly
/// ended: a warning stops nothing, and an error stops the warnings too.
pub fn assemble_with_warnings(ir: IR) -> (result: (
    Result<Vec<u8>, AssembleError>,
    Vec<RangeWarning>,
))
    ensures
        match result.0 {
            Ok(bytes) => assembled(ir@) == Ok::<Seq<u8>, AssembleErrorView>(bytes@),
            Err(error) => assembled(ir@) == Err::<Seq<u8>, AssembleErrorView>(error@),
        },
        result.1@ == warnings_issued(ir@),
{
    let translation = AssemblyTranslation::new();
    let mut assembled: Vec<u8> = Vec::new();
    let mut warnings: Vec<RangeWarning> = Vec::new();
    let mut label_locations: Vec<LabelLocation> = Vec::new();
    let count = ir.instructions.len();
    let ghost lines = ir@;

    // First pass: encode every instruction and note where each label stands.
    let mut index: usize = 0;
    while index < count
        invariant
            index <= count,
            count == ir.instructions.len(),
            lines == ir@,
            first_pass_error(lines.take(index as int)) is None,
            assembled@ == encoded(lines.take(index as int)),
            warnings@ == warnings_issued(lines.take(index as int)),
            forall|name: Seq<char>| #[trigger]
                recorded(label_locations@, name) == label_location(lines.take(index as int), name),
        decreases count - index,
    {
        proof {
            lemma_encoded_step(lines, index as int);
            assert(lines.take(index + 1).drop_last() =~= lines.take(index as int));
        }
        match &ir.instructions[index] {
            IRLine::Ins(instruction) => {
                match translation.assemble_instruction(instruction) {
                    Ok(translated) => {
                        let mut translated = translated;
                        assembled.append(&mut translated);
                        if let Some(warning) = translation.range_warning(instruction) {
                            warnings.push(warning);
                        }
                    },
                    Err(error) => {
                        proof {
                            lemma_first_pass_error_prefix(lines, index + 1);
                            lemma_warnings_stop_at_error(lines, index + 1);
                        }
                        return (Err(error), warnings);
                    },
                }
            },
            IRLine::Label(label) => {
                if find_label(&label_locations, label).is_some() {
                    proof {
                        lemma_first_pass_error_prefix(lines, index + 1);
                        lemma_warnings_stop_at_error(lines, index + 1);
                    }
                    return (Err(AssembleError::DuplicateLabel(label.clone())), warnings);
                }
                let ghost before = label_locations@;
                label_locations.push(
                    LabelLocation { name: label.clone(), location: assembled.len() / 4 },
                );
                assert forall|name: Seq<char>| #[trigger]
                    recorded(label_locations@, name) == label_location(
                        lines.take(index + 1),
                        name,
                    ) by {
                    assert(label_locations@.drop_last() =~= before);
                    assert(recorded(before, name) == label_location(lines.take(index as int), name));
                }
            },
        }
        index += 1;
    }
    assert(lines.take(index as int) =~= lines);

    // A program whose last instruction is not a `halt` gets one.
    if !last_is_halt(&ir) {
        assembled.push(0x00);
        assembled.push(0x00);
        assembled.push(0x00);
        assembled.push(HALT_INSTRUCTION);
    }
    let ghost first_pass = assembled@;

    // Second pass: enter the displacement of every label that an instruction refers to.
    let mut offset: usize = 0;
    let mut index: usize = 0;
    while index < count
        invariant
            index <= count,
            count == ir.instructions.len(),
            lines == ir@,
            first_pass_error(lines) is None,
            first_pass == encoded(lines) + closing(lines),
            second_pass_error(lines, index as nat) is None,
            warnings@ == warnings_issued(lines),
            offset == encoded(lines.take(index as int)).len(),
            assembled@.len() == first_pass.len(),
            assembled@.take(offset as int) == body(lines, index as nat),
            assembled@.skip(offset as int) == first_pass.skip(offset as int),
            forall|name: Seq<char>| #[trigger]
                recorded(label_locations@, name) == label_location(lines, name),
        decreases count - index,
    {
        proof {
            lemma_encoded_step(lines, index as int);
            lemma_encoded_prefix(lines, index as int);
            lemma_encoded_prefix(lines, index + 1);
        }
        let ghost current = assembled@;
        match &ir.instructions[index] {
            IRLine::Ins(instruction) => {
                let length = translation.encoded_len(instruction);
                let ghost encoding = line_encoding(lines[index as int]);
                proof {
                    lemma_line_without_error(lines, index as int);
                    lemma_packed_shape(instruction@, opcode_of(instruction@.signature())->0);
                    let whole = encoded(lines);
                    let upto = encoded(lines.take(index + 1));
                    assert forall|k: int| 0 <= k < length implies first_pass[offset + k]
                        == encoding[k] by {
                        assert(whole.take(upto.len() as int)[offset + k] == whole[offset + k]);
                    }
                    assert(first_pass.subrange(offset as int, offset + length) =~= encoding);
                    assert(offset + length <= assembled.len());
                }
                if let Some(label) = target_label(instruction) {
                    let target = match find_label(&label_locations, label) {
                        Some(location) => location,
                        None => {
                            proof {
                                lemma_second_pass_error_prefix(lines, index + 1, lines.len() as int);
                            }
                            return (Err(AssembleError::UnresolvedLabel(label.clone())), warnings);
                        },
                    };
                    let entry = displacement(target, offset / 4);
                    assembled.set(offset, entry[0]);
                    assembled.set(offset + 1, entry[1]);
                    assembled.set(offset + 2, entry[2]);
                }
                assert forall|k: int| offset + length <= k < current.len() implies assembled@[k]
                    == first_pass[k] by {
                    assert(current.skip(offset as int)[k - offset] == first_pass.skip(
                        offset as int,
                    )[k - offset]);
                }
                offset += length;
            },
            IRLine::Label(_) => {},
        }
        index += 1;
    }
    assert(first_pass.skip(offset as int) =~= closing(lines));
    assert(assembled@ =~= assembled@.take(offset as int) + assembled@.skip(offset as int));

    (Ok(assembled), warnings)
}

} // verus!
