//! The opcode table: which byte stands for a command with operands of given kinds.
//!
//! The table is the single source of truth for the operand combinations that a
//! command accepts: a combination without an entry cannot be encoded.

use vstd::prelude::*;
use crate::ir::{IRCommand, IRParamType, InstructionSignature};

verus! {

/// The opcode of `halt`.
pub const HALT_INSTRUCTION: u8 = 0xee;

/// The opcode of a signature, if the table has an entry for it.
pub open spec fn opcode_of(signature: InstructionSignature) -> Option<u8> {
    match signature {
        // Data movement
        (IRCommand::Mov, IRParamType::Register, IRParamType::Immediate) => Some(0x01),
        (IRCommand::Mov, IRParamType::Register, IRParamType::Register) => Some(0x02),
        (IRCommand::Mov, IRParamType::Register, IRParamType::MemoryAtImmediate) => Some(0x03),
        (IRCommand::Mov, IRParamType::Register, IRParamType::MemoryAtRegister) => Some(0x04),
        (IRCommand::Mov, IRParamType::MemoryAtImmediate, IRParamType::Immediate) => Some(0x05),
        (IRCommand::Mov, IRParamType::MemoryAtRegister, IRParamType::Immediate) => Some(0x06),
        (IRCommand::Mov, IRParamType::MemoryAtImmediate, IRParamType::Register) => Some(0x07),
        (IRCommand::Mov, IRParamType::MemoryAtRegister, IRParamType::Register) => Some(0x08),
        // Arithmetic
        (IRCommand::Add, IRParamType::Register, IRParamType::Immediate) => Some(0x10),
        (IRCommand::Add, IRParamType::Register, IRParamType::Register) => Some(0x20),
        (IRCommand::Sub, IRParamType::Register, IRParamType::Immediate) => Some(0x11),
        (IRCommand::Sub, IRParamType::Register, IRParamType::Register) => Some(0x21),
        (IRCommand::Mul, IRParamType::Register, IRParamType::Immediate) => Some(0x12),
        (IRCommand::Mul, IRParamType::Register, IRParamType::Register) => Some(0x22),
        (IRCommand::Div, IRParamType::Register, IRParamType::Immediate) => Some(0x13),
        (IRCommand::Div, IRParamType::Register, IRParamType::Register) => Some(0x23),
        (IRCommand::Mod, IRParamType::Register, IRParamType::Immediate) => Some(0x14),
        (IRCommand::Mod, IRParamType::Register, IRParamType::Register) => Some(0x24),
        (IRCommand::Pow, IRParamType::Register, IRParamType::Immediate) => Some(0x15),
        (IRCommand::Pow, IRParamType::Register, IRParamType::Register) => Some(0x25),
        (IRCommand::Inc, IRParamType::Register, IRParamType::Absent) => Some(0x17),
        (IRCommand::Dec, IRParamType::Register, IRParamType::Absent) => Some(0x18),
        // Bit operations
        (IRCommand::And, IRParamType::Register, IRParamType::Immediate) => Some(0x1a),
        (IRCommand::And, IRParamType::Register, IRParamType::Register) => Some(0x2a),
        (IRCommand::Or, IRParamType::Register, IRParamType::Immediate) => Some(0x1b),
        (IRCommand::Or, IRParamType::Register, IRParamType::Register) => Some(0x2b),
        (IRCommand::Xor, IRParamType::Register, IRParamType::Immediate) => Some(0x1c),
        (IRCommand::Xor, IRParamType::Register, IRParamType::Register) => Some(0x2c),
        (IRCommand::Shl, IRParamType::Register, IRParamType::Immediate) => Some(0x1d),
        (IRCommand::Shl, IRParamType::Register, IRParamType::Register) => Some(0x2d),
        (IRCommand::Shr, IRParamType::Register, IRParamType::Immediate) => Some(0x1e),
        (IRCommand::Shr, IRParamType::Register, IRParamType::Register) => Some(0x2e),
        (IRCommand::Not, IRParamType::Register, IRParamType::Absent) => Some(0x1f),
        // Comparison
        (IRCommand::Cmp, IRParamType::Register, IRParamType::Immediate) => Some(0x16),
        (IRCommand::Cmp, IRParamType::Register, IRParamType::Register) => Some(0x26),
        // Jumps
        (IRCommand::Jmp, IRParamType::Label, IRParamType::Absent) => Some(0x50),
        (IRCommand::Jz, IRParamType::Label, IRParamType::Absent) => Some(0x51),
        (IRCommand::Jnz, IRParamType::Label, IRParamType::Absent) => Some(0x52),
        (IRCommand::Js, IRParamType::Label, IRParamType::Absent) => Some(0x53),
        (IRCommand::Jns, IRParamType::Label, IRParamType::Absent) => Some(0x54),
        (IRCommand::Jle, IRParamType::Label, IRParamType::Absent) => Some(0x55),
        (IRCommand::Jgt, IRParamType::Label, IRParamType::Absent) => Some(0x56),
        // Stack
        (IRCommand::Push, IRParamType::Immediate, IRParamType::Absent) => Some(0x60),
        (IRCommand::Push, IRParamType::Register, IRParamType::Absent) => Some(0x61),
        (IRCommand::Pop, IRParamType::Register, IRParamType::Absent) => Some(0x62),
        // Calls
        (IRCommand::Call, IRParamType::Label, IRParamType::Absent) => Some(0x70),
        (IRCommand::Int, IRParamType::Register, IRParamType::Absent) => Some(0x72),
        (IRCommand::Ret, IRParamType::Absent, IRParamType::Absent) => Some(0x71),
        // Miscellaneous
        (IRCommand::Halt, IRParamType::Absent, IRParamType::Absent) => Some(HALT_INSTRUCTION),
        (IRCommand::Nop, IRParamType::Absent, IRParamType::Absent) => Some(0xff),
        _ => None,
    }
}

/// Whether an immediate operand of an instruction with this signature is
/// packed as a single byte in the header word, instead of four bytes after it.
/// Only the shifts by an immediate do so.
pub open spec fn has_byte_immediate(signature: InstructionSignature) -> bool {
    signature == (IRCommand::Shl, IRParamType::Register, IRParamType::Immediate)
        || signature == (IRCommand::Shr, IRParamType::Register, IRParamType::Immediate)
}

/// The signature that an opcode stands for: the table read backwards.
pub open spec fn signature_of(opcode: u8) -> Option<InstructionSignature> {
    match opcode {
        0x01 => Some((IRCommand::Mov, IRParamType::Register, IRParamType::Immediate)),
        0x02 => Some((IRCommand::Mov, IRParamType::Register, IRParamType::Register)),
        0x03 => Some((IRCommand::Mov, IRParamType::Register, IRParamType::MemoryAtImmediate)),
        0x04 => Some((IRCommand::Mov, IRParamType::Register, IRParamType::MemoryAtRegister)),
        0x05 => Some((IRCommand::Mov, IRParamType::MemoryAtImmediate, IRParamType::Immediate)),
        0x06 => Some((IRCommand::Mov, IRParamType::MemoryAtRegister, IRParamType::Immediate)),
        0x07 => Some((IRCommand::Mov, IRParamType::MemoryAtImmediate, IRParamType::Register)),
        0x08 => Some((IRCommand::Mov, IRParamType::MemoryAtRegister, IRParamType::Register)),
        0x10 => Some((IRCommand::Add, IRParamType::Register, IRParamType::Immediate)),
        0x11 => Some((IRCommand::Sub, IRParamType::Register, IRParamType::Immediate)),
        0x12 => Some((IRCommand::Mul, IRParamType::Register, IRParamType::Immediate)),
        0x13 => Some((IRCommand::Div, IRParamType::Register, IRParamType::Immediate)),
        0x14 => Some((IRCommand::Mod, IRParamType::Register, IRParamType::Immediate)),
        0x15 => Some((IRCommand::Pow, IRParamType::Register, IRParamType::Immediate)),
        0x16 => Some((IRCommand::Cmp, IRParamType::Register, IRParamType::Immediate)),
        0x17 => Some((IRCommand::Inc, IRParamType::Register, IRParamType::Absent)),
        0x18 => Some((IRCommand::Dec, IRParamType::Register, IRParamType::Absent)),
        0x1a => Some((IRCommand::And, IRParamType::Register, IRParamType::Immediate)),
        0x1b => Some((IRCommand::Or, IRParamType::Register, IRParamType::Immediate)),
        0x1c => Some((IRCommand::Xor, IRParamType::Register, IRParamType::Immediate)),
        0x1d => Some((IRCommand::Shl, IRParamType::Register, IRParamType::Immediate)),
        0x1e => Some((IRCommand::Shr, IRParamType::Register, IRParamType::Immediate)),
        0x1f => Some((IRCommand::Not, IRParamType::Register, IRParamType::Absent)),
        0x20 => Some((IRCommand::Add, IRParamType::Register, IRParamType::Register)),
        0x21 => Some((IRCommand::Sub, IRParamType::Register, IRParamType::Register)),
        0x22 => Some((IRCommand::Mul, IRParamType::Register, IRParamType::Register)),
        0x23 => Some((IRCommand::Div, IRParamType::Register, IRParamType::Register)),
        0x24 => Some((IRCommand::Mod, IRParamType::Register, IRParamType::Register)),
        0x25 => Some((IRCommand::Pow, IRParamType::Register, IRParamType::Register)),
        0x26 => Some((IRCommand::Cmp, IRParamType::Register, IRParamType::Register)),
        0x2a => Some((IRCommand::And, IRParamType::Register, IRParamType::Register)),
        0x2b => Some((IRCommand::Or, IRParamType::Register, IRParamType::Register)),
        0x2c => Some((IRCommand::Xor, IRParamType::Register, IRParamType::Register)),
        0x2d => Some((IRCommand::Shl, IRParamType::Register, IRParamType::Register)),
        0x2e => Some((IRCommand::Shr, IRParamType::Register, IRParamType::Register)),
        0x50 => Some((IRCommand::Jmp, IRParamType::Label, IRParamType::Absent)),
        0x51 => Some((IRCommand::Jz, IRParamType::Label, IRParamType::Absent)),
        0x52 => Some((IRCommand::Jnz, IRParamType::Label, IRParamType::Absent)),
        0x53 => Some((IRCommand::Js, IRParamType::Label, IRParamType::Absent)),
        0x54 => Some((IRCommand::Jns, IRParamType::Label, IRParamType::Absent)),
        0x55 => Some((IRCommand::Jle, IRParamType::Label, IRParamType::Absent)),
        0x56 => Some((IRCommand::Jgt, IRParamType::Label, IRParamType::Absent)),
        0x60 => Some((IRCommand::Push, IRParamType::Immediate, IRParamType::Absent)),
        0x61 => Some((IRCommand::Push, IRParamType::Register, IRParamType::Absent)),
        0x62 => Some((IRCommand::Pop, IRParamType::Register, IRParamType::Absent)),
        0x70 => Some((IRCommand::Call, IRParamType::Label, IRParamType::Absent)),
        0x71 => Some((IRCommand::Ret, IRParamType::Absent, IRParamType::Absent)),
        0x72 => Some((IRCommand::Int, IRParamType::Register, IRParamType::Absent)),
        0xee => Some((IRCommand::Halt, IRParamType::Absent, IRParamType::Absent)),
        0xff => Some((IRCommand::Nop, IRParamType::Absent, IRParamType::Absent)),
        _ => None,
    }
}

/// The opcode table of the machine.
pub struct AssemblyTranslation {}

impl AssemblyTranslation {
    /// The table of the machine. There is only one.
    pub fn new() -> (translation: AssemblyTranslation) {
        AssemblyTranslation {  }
    }

    /// Looks a signature up in the table.
    pub fn opcode(&self, signature: InstructionSignature) -> (opcode: Option<u8>)
        ensures
            opcode == opcode_of(signature),
    {
        match signature {
            // Data movement
            (IRCommand::Mov, IRParamType::Register, IRParamType::Immediate) => Some(0x01),
            (IRCommand::Mov, IRParamType::Register, IRParamType::Register) => Some(0x02),
            (IRCommand::Mov, IRParamType::Register, IRParamType::MemoryAtImmediate) => Some(0x03),
            (IRCommand::Mov, IRParamType::Register, IRParamType::MemoryAtRegister) => Some(0x04),
            (IRCommand::Mov, IRParamType::MemoryAtImmediate, IRParamType::Immediate) => Some(0x05),
            (IRCommand::Mov, IRParamType::MemoryAtRegister, IRParamType::Immediate) => Some(0x06),
            (IRCommand::Mov, IRParamType::MemoryAtImmediate, IRParamType::Register) => Some(0x07),
            (IRCommand::Mov, IRParamType::MemoryAtRegister, IRParamType::Register) => Some(0x08),
            // Arithmetic
            (IRCommand::Add, IRParamType::Register, IRParamType::Immediate) => Some(0x10),
            (IRCommand::Add, IRParamType::Register, IRParamType::Register) => Some(0x20),
            (IRCommand::Sub, IRParamType::Register, IRParamType::Immediate) => Some(0x11),
            (IRCommand::Sub, IRParamType::Register, IRParamType::Register) => Some(0x21),
            (IRCommand::Mul, IRParamType::Register, IRParamType::Immediate) => Some(0x12),
            (IRCommand::Mul, IRParamType::Register, IRParamType::Register) => Some(0x22),
            (IRCommand::Div, IRParamType::Register, IRParamType::Immediate) => Some(0x13),
            (IRCommand::Div, IRParamType::Register, IRParamType::Register) => Some(0x23),
            (IRCommand::Mod, IRParamType::Register, IRParamType::Immediate) => Some(0x14),
            (IRCommand::Mod, IRParamType::Register, IRParamType::Register) => Some(0x24),
            (IRCommand::Pow, IRParamType::Register, IRParamType::Immediate) => Some(0x15),
            (IRCommand::Pow, IRParamType::Register, IRParamType::Register) => Some(0x25),
            (IRCommand::Inc, IRParamType::Register, IRParamType::Absent) => Some(0x17),
            (IRCommand::Dec, IRParamType::Register, IRParamType::Absent) => Some(0x18),
            // Bit operations
            (IRCommand::And, IRParamType::Register, IRParamType::Immediate) => Some(0x1a),
            (IRCommand::And, IRParamType::Register, IRParamType::Register) => Some(0x2a),
            (IRCommand::Or, IRParamType::Register, IRParamType::Immediate) => Some(0x1b),
            (IRCommand::Or, IRParamType::Register, IRParamType::Register) => Some(0x2b),
            (IRCommand::Xor, IRParamType::Register, IRParamType::Immediate) => Some(0x1c),
            (IRCommand::Xor, IRParamType::Register, IRParamType::Register) => Some(0x2c),
            (IRCommand::Shl, IRParamType::Register, IRParamType::Immediate) => Some(0x1d),
            (IRCommand::Shl, IRParamType::Register, IRParamType::Register) => Some(0x2d),
            (IRCommand::Shr, IRParamType::Register, IRParamType::Immediate) => Some(0x1e),
            (IRCommand::Shr, IRParamType::Register, IRParamType::Register) => Some(0x2e),
            (IRCommand::Not, IRParamType::Register, IRParamType::Absent) => Some(0x1f),
            // Comparison
            (IRCommand::Cmp, IRParamType::Register, IRParamType::Immediate) => Some(0x16),
            (IRCommand::Cmp, IRParamType::Register, IRParamType::Register) => Some(0x26),
            // Jumps
            (IRCommand::Jmp, IRParamType::Label, IRParamType::Absent) => Some(0x50),
            (IRCommand::Jz, IRParamType::Label, IRParamType::Absent) => Some(0x51),
            (IRCommand::Jnz, IRParamType::Label, IRParamType::Absent) => Some(0x52),
            (IRCommand::Js, IRParamType::Label, IRParamType::Absent) => Some(0x53),
            (IRCommand::Jns, IRParamType::Label, IRParamType::Absent) => Some(0x54),
            (IRCommand::Jle, IRParamType::Label, IRParamType::Absent) => Some(0x55),
            (IRCommand::Jgt, IRParamType::Label, IRParamType::Absent) => Some(0x56),
            // Stack
            (IRCommand::Push, IRParamType::Immediate, IRParamType::Absent) => Some(0x60),
            (IRCommand::Push, IRParamType::Register, IRParamType::Absent) => Some(0x61),
            (IRCommand::Pop, IRParamType::Register, IRParamType::Absent) => Some(0x62),
            // Calls
            (IRCommand::Call, IRParamType::Label, IRParamType::Absent) => Some(0x70),
            (IRCommand::Int, IRParamType::Register, IRParamType::Absent) => Some(0x72),
            (IRCommand::Ret, IRParamType::Absent, IRParamType::Absent) => Some(0x71),
            // Miscellaneous
            (IRCommand::Halt, IRParamType::Absent, IRParamType::Absent) => Some(HALT_INSTRUCTION),
            (IRCommand::Nop, IRParamType::Absent, IRParamType::Absent) => Some(0xff),
            _ => None,
        }
    }

    /// Whether an immediate operand of such an instruction takes a single byte.
    pub fn byte_immediate(&self, signature: InstructionSignature) -> (narrow: bool)
        ensures
            narrow == has_byte_immediate(signature),
    {
        match signature {
            (IRCommand::Shl, IRParamType::Register, IRParamType::Immediate) => true,
            (IRCommand::Shr, IRParamType::Register, IRParamType::Immediate) => true,
            _ => false,
        }
    }
}

/// No two signatures share an opcode: the opcode of a signature leads back to
/// that signature, and to no other.
pub proof fn law_opcode_determines_signature(signature: InstructionSignature)
    requires
        opcode_of(signature) is Some,
    ensures
        signature_of(opcode_of(signature)->0) == Some(signature),
{
}

/// Every opcode that stands for a signature is the opcode of that signature.
pub proof fn law_signature_determines_opcode(opcode: u8)
    requires
        signature_of(opcode) is Some,
    ensures
        opcode_of(signature_of(opcode)->0) == Some(opcode),
{
}

/// A label is accepted as the first operand only, and then as the only
/// operand; and no instruction has a second operand without a first.
pub proof fn law_operand_kinds(signature: InstructionSignature)
    requires
        opcode_of(signature) is Some,
    ensures
        signature.2 != IRParamType::Label,
        signature.1 == IRParamType::Label ==> signature.2 == IRParamType::Absent,
        signature.1 == IRParamType::Absent ==> signature.2 == IRParamType::Absent,
{
}

/// The instructions whose immediate takes a single byte are in the table:
/// they have a register as the first operand and the immediate as the second.
pub proof fn law_byte_immediates(signature: InstructionSignature)
    requires
        has_byte_immediate(signature),
    ensures
        opcode_of(signature) is Some,
        signature.1 == IRParamType::Register,
        signature.2 == IRParamType::Immediate,
{
}

} // verus!
