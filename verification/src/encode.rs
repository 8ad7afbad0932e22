//! The instruction encoder: one instruction of the intermediate
//! representation, packed into its bytes.
//!
//! Every instruction begins with a header word of four bytes whose last byte
//! is the opcode. Registers, and the immediates of the shifts, are packed into
//! the header from byte 2 towards byte 0, in operand order. Every other
//! immediate follows the header as four bytes, most significant byte first. A
//! label leaves the header untouched: its displacement is entered once the
//! whole program has been laid out.

use vstd::prelude::*;
use crate::ir::{IRCommand, IRInstruction, IRParamType, IRParameter, InstructionView, ParameterView};
use crate::ir::{instruction_signature, param_view};
use crate::opcode::{AssemblyTranslation, has_byte_immediate, opcode_of};

verus! {

/// The low eight bits of a value, as an unsigned byte.
pub open spec fn low_byte(value: i32) -> u8 {
    (value as int % 256) as u8
}

/// A value as an unsigned number of 32 bits, in two's complement.
pub open spec fn unsigned_of(value: i32) -> int {
    if value < 0 {
        value + 0x1_0000_0000
    } else {
        value as int
    }
}

/// The four bytes of a value in two's complement, most significant byte first.
pub open spec fn immediate_bytes(value: i32) -> Seq<u8> {
    let unsigned = unsigned_of(value);
    seq![
        (unsigned / 0x100_0000) as u8,
        (unsigned / 0x1_0000 % 256) as u8,
        (unsigned / 0x100 % 256) as u8,
        (unsigned % 256) as u8,
    ]
}

/// An instruction in the course of being packed: the bytes so far, and the
/// index of the header byte that the next register goes to.
pub struct PartialEncoding {
    pub bytes: Seq<u8>,
    pub next_register: int,
}

/// The header word with nothing but the opcode in it.
pub open spec fn header_of(opcode: u8) -> PartialEncoding {
    PartialEncoding { bytes: seq![0u8, 0u8, 0u8, opcode], next_register: 2 }
}

/// A byte entered into the next free place of the header.
pub open spec fn with_header_byte(encoding: PartialEncoding, value: u8) -> PartialEncoding {
    PartialEncoding {
        bytes: encoding.bytes.update(encoding.next_register, value),
        next_register: encoding.next_register - 1,
    }
}

/// One operand packed. Behind brackets or not, a register goes to the header;
/// so does an immediate where `byte_immediates` holds, cut down to its low
/// byte; any other immediate is appended in full. A label and an absent
/// operand leave the bytes as they are.
pub open spec fn with_parameter(
    encoding: PartialEncoding,
    param: Option<ParameterView>,
    byte_immediates: bool,
) -> PartialEncoding {
    match param {
        Some(ParameterView::Reg(register)) | Some(ParameterView::MemReg(register)) => {
            with_header_byte(encoding, register.spec_code())
        },
        Some(ParameterView::Imm(value)) | Some(ParameterView::MemImm(value)) => {
            if byte_immediates {
                with_header_byte(encoding, low_byte(value))
            } else {
                PartialEncoding {
                    bytes: encoding.bytes + immediate_bytes(value),
                    next_register: encoding.next_register,
                }
            }
        },
        _ => encoding,
    }
}

/// The bytes of an instruction, given its opcode: the header, then both
/// operands packed in order.
pub open spec fn packed(instruction: InstructionView, opcode: u8) -> Seq<u8> {
    let narrow = has_byte_immediate(instruction.signature());
    with_parameter(
        with_parameter(header_of(opcode), instruction.param1, narrow),
        instruction.param2,
        narrow,
    ).bytes
}

/// The bytes of an instruction, where the opcode table has an entry for its
/// signature. The displacement of a label is not part of them.
pub open spec fn encoding_of(instruction: InstructionView) -> Option<Seq<u8>> {
    match opcode_of(instruction.signature()) {
        Some(opcode) => Some(packed(instruction, opcode)),
        None => None,
    }
}

/// The number of bytes that an operand adds behind the header word.
pub open spec fn immediate_width(param: Option<ParameterView>, byte_immediates: bool) -> nat {
    match param {
        Some(ParameterView::Imm(_)) | Some(ParameterView::MemImm(_)) => if byte_immediates {
            0
        } else {
            4
        },
        _ => 0,
    }
}

/// The number of bytes that an instruction takes: the header word, and four
/// bytes more for each immediate that is not packed into the header.
pub open spec fn encoded_length(instruction: InstructionView) -> nat {
    let narrow = has_byte_immediate(instruction.signature());
    4 + immediate_width(instruction.param1, narrow) + immediate_width(instruction.param2, narrow)
}

/// The bytes of an instruction are as many as [`encoded_length`] says,
/// whatever the opcode, and the opcode is the last byte of the header word.
pub proof fn lemma_packed_shape(instruction: InstructionView, opcode: u8)
    ensures
        packed(instruction, opcode).len() == encoded_length(instruction),
        packed(instruction, opcode)[3] == opcode,
{
}

/// A note on an instruction whose immediate does not fit the single byte it
/// is packed into: the instruction is encoded all the same, with the low
/// eight bits of the value.
#[derive(PartialEq, Eq, Structural, Clone, Copy, Debug)]
pub struct RangeWarning {
    pub command: IRCommand,
    pub value: i32,
    pub line_number: usize,
}

/// Whether a value is outside the range of an unsigned byte.
pub open spec fn exceeds_byte(value: i32) -> bool {
    value < 0 || value > 255
}

/// The warning that an instruction gives rise to: its immediate is packed
/// into a single byte and the value is outside the range of 0 to 255.
pub open spec fn range_warning(instruction: InstructionView) -> Option<RangeWarning> {
    if has_byte_immediate(instruction.signature()) {
        match instruction.param2 {
            Some(ParameterView::Imm(value)) => if exceeds_byte(value) {
                Some(
                    RangeWarning {
                        command: instruction.command,
                        value,
                        line_number: instruction.line_number,
                    },
                )
            } else {
                None
            },
            _ => None,
        }
    } else {
        None
    }
}

/// Why a program cannot be assembled.
#[derive(Clone, Debug, PartialEq, Eq)]
pub enum AssembleError {
    /// The opcode table has no entry for this command with operands of these kinds.
    UnsupportedOperands {
        command: IRCommand,
        param1: IRParamType,
        param2: IRParamType,
        line_number: usize,
    },
    /// The label is defined a second time.
    DuplicateLabel(String),
    /// An instruction refers to a label that the program does not define.
    UnresolvedLabel(String),
}

/// The view of an [`AssembleError`].
pub enum AssembleErrorView {
    UnsupportedOperands {
        command: IRCommand,
        param1: IRParamType,
        param2: IRParamType,
        line_number: usize,
    },
    DuplicateLabel(Seq<char>),
    UnresolvedLabel(Seq<char>),
}

impl View for AssembleError {
    type V = AssembleErrorView;

    open spec fn view(&self) -> AssembleErrorView {
        match self {
            AssembleError::UnsupportedOperands { command, param1, param2, line_number } => {
                AssembleErrorView::UnsupportedOperands {
                    command: *command,
                    param1: *param1,
                    param2: *param2,
                    line_number: *line_number,
                }
            },
            AssembleError::DuplicateLabel(name) => AssembleErrorView::DuplicateLabel(name@),
            AssembleError::UnresolvedLabel(name) => AssembleErrorView::UnresolvedLabel(name@),
        }
    }
}

/// The error of an instruction that the opcode table has no entry for.
pub open spec fn unsupported(instruction: InstructionView) -> AssembleErrorView {
    AssembleErrorView::UnsupportedOperands {
        command: instruction.command,
        param1: instruction.signature().1,
        param2: instruction.signature().2,
        line_number: instruction.line_number,
    }
}

/// What encoding one instruction gives: its bytes, or the error that says
/// which signature the opcode table lacks.
pub open spec fn encode_result(instruction: InstructionView) -> Result<Seq<u8>, AssembleErrorView> {
    match encoding_of(instruction) {
        Some(bytes) => Ok(bytes),
        None => Err(unsupported(instruction)),
    }
}

/// The state of the encoder while it packs one instruction.
struct AssembleInstruction<'a> {
    instruction: &'a IRInstruction,
    assembled: Vec<u8>,
    next_register: usize,
}

impl<'a> View for AssembleInstruction<'a> {
    type V = PartialEncoding;

    closed spec fn view(&self) -> PartialEncoding {
        PartialEncoding { bytes: self.assembled@, next_register: self.next_register as int }
    }
}

impl<'a> AssembleInstruction<'a> {
    fn new(instruction: &'a IRInstruction) -> (state: AssembleInstruction<'a>)
        ensures
            state@ == header_of(0),
            state.instruction == instruction,
    {
        let state = AssembleInstruction { instruction, assembled: vec![0u8;4], next_register: 2 };
        assert(state.assembled@ =~= seq![0u8, 0u8, 0u8, 0u8]);
        state
    }

    fn assemble(&mut self, encoding: u8, byte_immediates: bool)
        requires
            old(self)@ == header_of(0),
        ensures
            final(self).instruction == old(self).instruction,
            final(self)@ == with_parameter(
                with_parameter(header_of(encoding), old(self).instruction@.param1, byte_immediates),
                old(self).instruction@.param2,
                byte_immediates,
            ),
    {
        self.assembled.set(3, encoding);
        assert(self@.bytes =~= header_of(encoding).bytes);
        let instruction = self.instruction;
        self.assemble_parameter(&instruction.param1, byte_immediates);
        self.assemble_parameter(&instruction.param2, byte_immediates);
    }

    fn assemble_parameter(&mut self, param: &Option<IRParameter>, byte_immediates: bool)
        requires
            old(self)@.bytes.len() >= 4,
            1 <= old(self)@.next_register <= 2,
        ensures
            final(self).instruction == old(self).instruction,
            final(self)@ == with_parameter(old(self)@, param_view(*param), byte_immediates),
            final(self)@.bytes.len() >= 4,
            final(self)@.next_register >= old(self)@.next_register - 1,
    {
        match param {
            Some(IRParameter::Reg(register)) | Some(IRParameter::MemReg(register)) => {
                self.add_register_value(register.code());
            },
            Some(IRParameter::Imm(value)) | Some(IRParameter::MemImm(value)) => {
                let value: i32 = *value;
                if !byte_immediates {
                    push_immediate(&mut self.assembled, value);
                } else {
                    self.add_register_value(truncate_to_byte(value));
                }
            },
            _ => {},
        }
    }

    fn add_register_value(&mut self, value: u8)
        requires
            old(self)@.bytes.len() >= 4,
            1 <= old(self)@.next_register <= 2,
        ensures
            final(self).instruction == old(self).instruction,
            final(self)@ == with_header_byte(old(self)@, value),
    {
        self.assembled.set(self.next_register, value);
        self.next_register -= 1;
    }
}

/// The low eight bits of a value.
fn truncate_to_byte(value: i32) -> (byte: u8)
    ensures
        byte == low_byte(value),
{
    let byte: u8 = #[verifier::truncate] (value as u8);
    assert(byte == (value as int % 256) as u8) by (bit_vector)
        requires
            byte == value as u8,
    ;
    byte
}

/// Appends the four bytes of a value, most significant byte first.
fn push_immediate(assembled: &mut Vec<u8>, value: i32)
    ensures
        final(assembled)@ == old(assembled)@ + immediate_bytes(value),
{
    let unsigned: u64 = if value < 0 {
        (value as i64 + 0x1_0000_0000) as u64
    } else {
        value as u64
    };
    assembled.push((unsigned / 0x100_0000) as u8);
    assembled.push((unsigned / 0x1_0000 % 256) as u8);
    assembled.push((unsigned / 0x100 % 256) as u8);
    assembled.push((unsigned % 256) as u8);
}

impl AssemblyTranslation {
    /// Encodes one instruction. It fails where the opcode table has no entry
    /// for the command with operands of these kinds, and only there.
    pub fn assemble_instruction(&self, instruction: &IRInstruction) -> (result: Result<
        Vec<u8>,
        AssembleError,
    >)
        ensures
            match result {
                Ok(bytes) => encode_result(instruction@) == Ok::<Seq<u8>, AssembleErrorView>(bytes@),
                Err(error) => encode_result(instruction@) == Err::<Seq<u8>, AssembleErrorView>(error@),
            },
    {
        let mut assemble = AssembleInstruction::new(instruction);

        let signature = instruction_signature(instruction);
        let encoding = match self.opcode(signature) {
            Some(instruction_byte) => instruction_byte,
            None => {
                return Err(
                    AssembleError::UnsupportedOperands {
                        command: signature.0,
                        param1: signature.1,
                        param2: signature.2,
                        line_number: instruction.line_number,
                    },
                );
            },
        };

        let byte_immediates = self.byte_immediate(signature);
        assemble.assemble(encoding, byte_immediates);

        Ok(assemble.assembled)
    }

    /// The warning that an instruction gives rise to, if any.
    pub fn range_warning(&self, instruction: &IRInstruction) -> (warning: Option<RangeWarning>)
        ensures
            warning == range_warning(instruction@),
    {
        if !self.byte_immediate(instruction_signature(instruction)) {
            return None;
        }
        match &instruction.param2 {
            Some(IRParameter::Imm(value)) => {
                if *value < 0 || *value > 255 {
                    Some(
                        RangeWarning {
                            command: instruction.command,
                            value: *value,
                            line_number: instruction.line_number,
                        },
                    )
                } else {
                    None
                }
            },
            _ => None,
        }
    }

    /// The number of bytes that an instruction takes once it is encoded.
    pub fn encoded_len(&self, instruction: &IRInstruction) -> (length: usize)
        ensures
            length == encoded_length(instruction@),
    {
        let narrow = self.byte_immediate(instruction_signature(instruction));
        let mut length: usize = 4;
        if !narrow && is_immediate(&instruction.param1) {
            length += 4;
        }
        if !narrow && is_immediate(&instruction.param2) {
            length += 4;
        }
        length
    }
}

/// Whether an operand is an immediate, behind brackets or not.
fn is_immediate(param: &Option<IRParameter>) -> (immediate: bool)
    ensures
        immediate == (immediate_width(param_view(*param), false) == 4),
{
    match param {
        Some(IRParameter::Imm(_)) | Some(IRParameter::MemImm(_)) => true,
        _ => false,
    }
}

} // verus!
