//! The intermediate representation: one [`IRLine`] per meaningful source line.
//!
//! The executable types hold `String`s, so each of them has a mathematical
//! view in which a name is a sequence of characters. Every contract of the
//! library is stated over these views.

use vstd::prelude::*;

verus! {

/// The six registers of the machine.
#[derive(Hash, PartialEq, Eq, Structural, Clone, Copy, Debug)]
pub enum IRRegister {
    A,
    B,
    C,
    D,
    IP,
    SP,
}

/// The closed set of commands. Synonymous mnemonics (`je` and `jz`, ...) share a command.
#[derive(Hash, PartialEq, Eq, Structural, Clone, Copy, Debug)]
pub enum IRCommand {
    Mov,
    // Arithmetic
    Add,
    Sub,
    Mul,
    Div,
    Mod,
    Pow,
    Cmp,
    Inc,
    Dec,
    // Bit operations
    And,
    Or,
    Xor,
    Shl,
    Shr,
    Not,
    // Jumps
    Jmp,
    Jz,
    Jnz,
    Js,
    Jns,
    Jle,
    Jgt,
    // Stack
    Push,
    Pop,
    // Calls
    Call,
    Int,
    Ret,
    // Miscellaneous
    Halt,
    Nop,
}

/// The kind of an operand; `Absent` is the kind of an operand that is not there.
#[derive(Hash, PartialEq, Eq, Structural, Clone, Copy, Debug)]
pub enum IRParamType {
    Absent,
    Register,
    Immediate,
    Label,
    MemoryAtRegister,
    MemoryAtImmediate,
}

/// One operand of an instruction.
#[derive(Clone, Debug, PartialEq, Eq)]
pub enum IRParameter {
    Reg(IRRegister),
    Imm(i32),
    Label(String),
    MemReg(IRRegister),
    MemImm(i32),
}

/// One instruction: a command, up to two operands, and the source line it came from.
#[derive(Clone, Debug, PartialEq, Eq)]
pub struct IRInstruction {
    pub command: IRCommand,
    pub param1: Option<IRParameter>,
    pub param2: Option<IRParameter>,
    pub line_number: usize,
}

/// One line of a program: an instruction, or the definition of a label.
#[derive(Clone, Debug, PartialEq, Eq)]
pub enum IRLine {
    Ins(IRInstruction),
    Label(String),
}

/// A program: its lines in source order.
#[derive(Clone, Debug, PartialEq, Eq)]
pub struct IR {
    pub instructions: Vec<IRLine>,
}

/// The command, the kind of the first operand and the kind of the second:
/// what selects an opcode.
pub type InstructionSignature = (IRCommand, IRParamType, IRParamType);

/// The view of an [`IRParameter`].
pub enum ParameterView {
    Reg(IRRegister),
    Imm(i32),
    Label(Seq<char>),
    MemReg(IRRegister),
    MemImm(i32),
}

/// The view of an [`IRInstruction`].
pub struct InstructionView {
    pub command: IRCommand,
    pub param1: Option<ParameterView>,
    pub param2: Option<ParameterView>,
    pub line_number: usize,
}

/// The view of an [`IRLine`].
pub enum LineView {
    Ins(InstructionView),
    Label(Seq<char>),
}

impl IRRegister {
    /// The byte that stands for the register in machine code.
    pub open spec fn spec_code(self) -> u8 {
        match self {
            IRRegister::A => 1,
            IRRegister::B => 2,
            IRRegister::C => 3,
            IRRegister::D => 4,
            IRRegister::IP => 5,
            IRRegister::SP => 6,
        }
    }

    /// The byte that stands for the register in machine code.
    #[verifier::when_used_as_spec(spec_code)]
    pub fn code(self) -> (code: u8)
        ensures
            code == self.spec_code(),
    {
        match self {
            IRRegister::A => 1,
            IRRegister::B => 2,
            IRRegister::C => 3,
            IRRegister::D => 4,
            IRRegister::IP => 5,
            IRRegister::SP => 6,
        }
    }
}

impl ParameterView {
    /// The kind of the operand.
    pub open spec fn param_type(self) -> IRParamType {
        match self {
            ParameterView::Reg(_) => IRParamType::Register,
            ParameterView::Imm(_) => IRParamType::Immediate,
            ParameterView::Label(_) => IRParamType::Label,
            ParameterView::MemReg(_) => IRParamType::MemoryAtRegister,
            ParameterView::MemImm(_) => IRParamType::MemoryAtImmediate,
        }
    }
}

impl View for IRParameter {
    type V = ParameterView;

    open spec fn view(&self) -> ParameterView {
        match self {
            IRParameter::Reg(register) => ParameterView::Reg(*register),
            IRParameter::Imm(value) => ParameterView::Imm(*value),
            IRParameter::Label(name) => ParameterView::Label(name@),
            IRParameter::MemReg(register) => ParameterView::MemReg(*register),
            IRParameter::MemImm(value) => ParameterView::MemImm(*value),
        }
    }
}

impl IRParameter {
    /// The kind of the operand.
    pub fn param_type(&self) -> (kind: IRParamType)
        ensures
            kind == self@.param_type(),
    {
        match self {
            IRParameter::Reg(_) => IRParamType::Register,
            IRParameter::Imm(_) => IRParamType::Immediate,
            IRParameter::Label(_) => IRParamType::Label,
            IRParameter::MemReg(_) => IRParamType::MemoryAtRegister,
            IRParameter::MemImm(_) => IRParamType::MemoryAtImmediate,
        }
    }
}

/// The view of an operand that may be absent.
pub open spec fn param_view(param: Option<IRParameter>) -> Option<ParameterView> {
    match param {
        Some(p) => Some(p@),
        None => None,
    }
}

/// The kind of an operand that may be absent.
pub open spec fn kind_of(param: Option<ParameterView>) -> IRParamType {
    match param {
        Some(p) => p.param_type(),
        None => IRParamType::Absent,
    }
}

/// The kind of an operand that may be absent.
pub fn param_type(param: &Option<IRParameter>) -> (kind: IRParamType)
    ensures
        kind == kind_of(param_view(*param)),
{
    match param {
        Some(p) => p.param_type(),
        None => IRParamType::Absent,
    }
}

impl InstructionView {
    /// What selects the opcode of the instruction.
    pub open spec fn signature(self) -> InstructionSignature {
        (self.command, kind_of(self.param1), kind_of(self.param2))
    }
}

impl View for IRInstruction {
    type V = InstructionView;

    open spec fn view(&self) -> InstructionView {
        InstructionView {
            command: self.command,
            param1: param_view(self.param1),
            param2: param_view(self.param2),
            line_number: self.line_number,
        }
    }
}

/// What selects the opcode of an instruction.
pub fn instruction_signature(instruction: &IRInstruction) -> (signature: InstructionSignature)
    ensures
        signature == instruction@.signature(),
{
    (instruction.command, param_type(&instruction.param1), param_type(&instruction.param2))
}

impl View for IRLine {
    type V = LineView;

    open spec fn view(&self) -> LineView {
        match self {
            IRLine::Ins(instruction) => LineView::Ins(instruction@),
            IRLine::Label(name) => LineView::Label(name@),
        }
    }
}

/// The views of a sequence of lines, in the same order.
pub open spec fn lines_view(lines: Seq<IRLine>) -> Seq<LineView> {
    lines.map_values(|line: IRLine| line@)
}

impl View for IR {
    type V = Seq<LineView>;

    open spec fn view(&self) -> Seq<LineView> {
        lines_view(self.instructions@)
    }
}

} // verus!
