use assembler::assembler::{assemble, assemble_with_warnings, range_warnings};
use assembler::encode::{AssembleError, RangeWarning};
use assembler::ir::{IRCommand, IRInstruction, IRLine, IRParamType, IRParameter, IRRegister, IR};
use assembler::opcode::AssemblyTranslation;
use assembler::translate::IRTranslationTable;

fn program(source: &str) -> IR {
    let table = IRTranslationTable::new();
    let lines: Vec<String> = source.lines().map(|line| line.to_string()).collect();
    let (ir, errors) = table.translate_program(&lines);
    assert!(errors.is_empty());
    ir
}

fn instruction(
    command: IRCommand,
    param1: Option<IRParameter>,
    param2: Option<IRParameter>,
) -> IRInstruction {
    IRInstruction { command, param1, param2, line_number: 1 }
}

#[test]
fn counting_loop_jumps_back_three_words() {
    let ir = program("mov A, 1\nloop:\ninc A\ncmp A, 10\njle loop\nhalt");
    let bytes = assemble(ir).unwrap();
    assert_eq!(
        bytes,
        vec![
            0x00, 0x00, 0x01, 0x01, 0x00, 0x00, 0x00, 0x01, // mov A, 1
            0x00, 0x00, 0x01, 0x17, // inc A
            0x00, 0x00, 0x01, 0x16, 0x00, 0x00, 0x00, 0x0a, // cmp A, 10
            0xff, 0xff, 0xfd, 0x55, // jle loop
            0x00, 0x00, 0x00, 0xee, // halt
        ]
    );
}

#[test]
fn displacement_is_label_location_minus_jump_location() {
    let ir = program("mov A, 1\nloop:\ninc A\ncmp A, 10\njle loop\nhalt");
    let bytes = assemble(ir).unwrap();
    // `loop` stands at word 2, the jump at word 5.
    let jump = 5 * 4;
    let stored = ((bytes[jump] as i32) << 16) | ((bytes[jump + 1] as i32) << 8)
        | (bytes[jump + 2] as i32);
    let signed = (stored << 8) >> 8;
    assert_eq!(signed, 2 - 5);
    assert_eq!(bytes[jump + 3], 0x55);
}

#[test]
fn forward_jump_has_positive_displacement() {
    let ir = program("jmp end\nmov A, 1\nnop\nend:\nhalt");
    let bytes = assemble(ir).unwrap();
    assert_eq!(
        bytes,
        vec![
            0x00, 0x00, 0x04, 0x50, // jmp end: from word 0 to word 4
            0x00, 0x00, 0x01, 0x01, 0x00, 0x00, 0x00, 0x01, // mov A, 1
            0x00, 0x00, 0x00, 0xff, // nop
            0x00, 0x00, 0x00, 0xee, // halt
        ]
    );
}

#[test]
fn jump_to_itself_has_displacement_zero() {
    let ir = program("here:\njmp here");
    let bytes = assemble(ir).unwrap();
    assert_eq!(bytes, vec![0x00, 0x00, 0x00, 0x50, 0x00, 0x00, 0x00, 0xee]);
}

#[test]
fn call_is_patched_like_a_jump() {
    let ir = program("call f\nhalt\nf:\nret");
    let bytes = assemble(ir).unwrap();
    assert_eq!(
        bytes,
        vec![
            0x00, 0x00, 0x02, 0x70, // call f
            0x00, 0x00, 0x00, 0xee, // halt
            0x00, 0x00, 0x00, 0x71, // ret
            0x00, 0x00, 0x00, 0xee, // the closing halt
        ]
    );
}

#[test]
fn mov_register_immediate_can_be_decoded() {
    let translation = AssemblyTranslation::new();
    let ins = instruction(
        IRCommand::Mov,
        Some(IRParameter::Reg(IRRegister::A)),
        Some(IRParameter::Imm(5)),
    );
    let bytes = translation.assemble_instruction(&ins).unwrap();
    assert_eq!(bytes, vec![0x00, 0x00, 0x01, 0x01, 0x00, 0x00, 0x00, 0x05]);
    // Byte 3 is the opcode of (mov, register, immediate).
    assert_eq!(
        translation.opcode((IRCommand::Mov, IRParamType::Register, IRParamType::Immediate)),
        Some(bytes[3])
    );
    // The register is in byte 2, the immediate in the four bytes behind the header.
    assert_eq!(bytes[2], IRRegister::A.code());
    assert_eq!(i32::from_be_bytes([bytes[4], bytes[5], bytes[6], bytes[7]]), 5);
}

#[test]
fn shift_by_300_keeps_the_low_byte() {
    let translation = AssemblyTranslation::new();
    let ins = instruction(
        IRCommand::Shl,
        Some(IRParameter::Reg(IRRegister::A)),
        Some(IRParameter::Imm(300)),
    );
    let bytes = translation.assemble_instruction(&ins).unwrap();
    assert_eq!(bytes, vec![0x00, 44, 0x01, 0x1d]);
    assert_eq!(
        translation.range_warning(&ins),
        Some(RangeWarning { command: IRCommand::Shl, value: 300, line_number: 1 })
    );
}

#[test]
fn shift_by_negative_value_wraps_and_warns() {
    let translation = AssemblyTranslation::new();
    let ins = instruction(
        IRCommand::Shr,
        Some(IRParameter::Reg(IRRegister::SP)),
        Some(IRParameter::Imm(-1)),
    );
    assert_eq!(translation.assemble_instruction(&ins).unwrap(), vec![0x00, 0xff, 0x06, 0x1e]);
    assert!(translation.range_warning(&ins).is_some());
}

#[test]
fn shift_in_range_gives_no_warning() {
    let translation = AssemblyTranslation::new();
    for value in [0, 1, 31, 255] {
        let ins = instruction(
            IRCommand::Shl,
            Some(IRParameter::Reg(IRRegister::B)),
            Some(IRParameter::Imm(value)),
        );
        assert_eq!(
            translation.assemble_instruction(&ins).unwrap(),
            vec![0x00, value as u8, 0x02, 0x1d]
        );
        assert_eq!(translation.range_warning(&ins), None);
    }
}

#[test]
fn shift_by_register_uses_two_header_bytes() {
    let translation = AssemblyTranslation::new();
    let ins = instruction(
        IRCommand::Shl,
        Some(IRParameter::Reg(IRRegister::A)),
        Some(IRParameter::Reg(IRRegister::D)),
    );
    assert_eq!(translation.assemble_instruction(&ins).unwrap(), vec![0x00, 0x04, 0x01, 0x2d]);
}

#[test]
fn add_minus_one_appends_four_bytes() {
    let translation = AssemblyTranslation::new();
    let ins = instruction(
        IRCommand::Add,
        Some(IRParameter::Reg(IRRegister::A)),
        Some(IRParameter::Imm(-1)),
    );
    let bytes = translation.assemble_instruction(&ins).unwrap();
    assert_eq!(bytes, vec![0x00, 0x00, 0x01, 0x10, 0xff, 0xff, 0xff, 0xff]);
    assert_eq!(translation.range_warning(&ins), None);
    assert_eq!(translation.encoded_len(&ins), 8);
}

#[test]
fn immediates_agree_with_big_endian_bytes() {
    let translation = AssemblyTranslation::new();
    for value in [0, 1, -1, 255, 256, 65536, 0x1234_5678, i32::MAX, i32::MIN, -2, -256] {
        let ins = instruction(IRCommand::Push, Some(IRParameter::Imm(value)), None);
        let bytes = translation.assemble_instruction(&ins).unwrap();
        let mut expected = vec![0x00, 0x00, 0x00, 0x60];
        expected.extend_from_slice(&value.to_be_bytes());
        assert_eq!(bytes, expected);
    }
}

#[test]
fn memory_operands_are_packed_like_plain_ones() {
    let translation = AssemblyTranslation::new();
    let load = instruction(
        IRCommand::Mov,
        Some(IRParameter::Reg(IRRegister::B)),
        Some(IRParameter::MemReg(IRRegister::C)),
    );
    assert_eq!(translation.assemble_instruction(&load).unwrap(), vec![0x00, 0x03, 0x02, 0x04]);
    let store = instruction(
        IRCommand::Mov,
        Some(IRParameter::MemImm(0x100)),
        Some(IRParameter::Reg(IRRegister::D)),
    );
    assert_eq!(
        translation.assemble_instruction(&store).unwrap(),
        vec![0x00, 0x00, 0x04, 0x07, 0x00, 0x00, 0x01, 0x00]
    );
}

#[test]
fn two_immediates_take_three_words() {
    let translation = AssemblyTranslation::new();
    let ins = instruction(
        IRCommand::Mov,
        Some(IRParameter::MemImm(100)),
        Some(IRParameter::Imm(5)),
    );
    assert_eq!(
        translation.assemble_instruction(&ins).unwrap(),
        vec![0x00, 0x00, 0x00, 0x05, 0x00, 0x00, 0x00, 0x64, 0x00, 0x00, 0x00, 0x05]
    );
    assert_eq!(translation.encoded_len(&ins), 12);
}

#[test]
fn jump_over_three_word_instruction() {
    let ir = program("jmp end\nmov [100], 5\nend:\nhalt");
    let bytes = assemble(ir).unwrap();
    assert_eq!(&bytes[0..4], &[0x00, 0x00, 0x04, 0x50]);
    assert_eq!(bytes.len(), 4 + 12 + 4);
}

#[test]
fn displacement_uses_all_three_bytes() {
    // 69,999 one-word instructions between the jump and its label.
    let mut lines = vec![IRLine::Ins(instruction(
        IRCommand::Jmp,
        Some(IRParameter::Label("end".to_string())),
        None,
    ))];
    for _ in 0..69_999 {
        lines.push(IRLine::Ins(instruction(IRCommand::Nop, None, None)));
    }
    lines.push(IRLine::Label("end".to_string()));
    lines.push(IRLine::Ins(instruction(
        IRCommand::Jmp,
        Some(IRParameter::Label("start".to_string())),
        None,
    )));
    lines.insert(0, IRLine::Label("start".to_string()));
    let bytes = assemble(IR { instructions: lines }).unwrap();
    // Forwards by 70,000 words: 0x011170.
    assert_eq!(&bytes[0..4], &[0x01, 0x11, 0x70, 0x50]);
    // Backwards by 70,000 words: 0xfeee90 in two's complement of 24 bits.
    let last = 70_000 * 4;
    assert_eq!(&bytes[last..last + 4], &[0xfe, 0xee, 0x90, 0x50]);
    assert_eq!(bytes.len(), (70_001 + 1) * 4);
}

#[test]
fn every_instruction_stands_at_its_location() {
    let translation = AssemblyTranslation::new();
    let ir = program("push 1
mov [8], 2
top:
shl A, 3
mov B, [A]
jnz top
pop C");
    let bytes = assemble(ir.clone()).unwrap();
    let mut at = 0;
    for line in &ir.instructions {
        if let IRLine::Ins(ins) = line {
            let encoding = translation.assemble_instruction(ins).unwrap();
            assert_eq!(encoding.len(), translation.encoded_len(ins));
            let placed = &bytes[at..at + encoding.len()];
            assert_eq!(&placed[3..], &encoding[3..]);
            if ins.command != IRCommand::Jnz {
                assert_eq!(placed, &encoding[..]);
            }
            at += encoding.len();
        }
    }
    // The closing halt follows the last instruction.
    assert_eq!(&bytes[at..], &[0x00, 0x00, 0x00, 0xee]);
    // `top` stands at word 5, the jump at word 7.
    assert_eq!(&bytes[28..32], &[0xff, 0xff, 0xfe, 0x52]);
}

#[test]
fn unsupported_operands_are_an_error() {
    let translation = AssemblyTranslation::new();
    let ins = IRInstruction {
        command: IRCommand::Inc,
        param1: Some(IRParameter::Imm(1)),
        param2: None,
        line_number: 7,
    };
    let expected = AssembleError::UnsupportedOperands {
        command: IRCommand::Inc,
        param1: IRParamType::Immediate,
        param2: IRParamType::Absent,
        line_number: 7,
    };
    assert_eq!(translation.assemble_instruction(&ins), Err(expected.clone()));
    let ir = IR { instructions: vec![IRLine::Ins(ins)] };
    assert_eq!(assemble(ir), Err(expected));
}

#[test]
fn halt_with_an_operand_is_unsupported() {
    let ir = program("halt A");
    assert_eq!(
        assemble(ir),
        Err(AssembleError::UnsupportedOperands {
            command: IRCommand::Halt,
            param1: IRParamType::Register,
            param2: IRParamType::Absent,
            line_number: 1,
        })
    );
}

#[test]
fn duplicate_label_is_an_error() {
    let ir = program("loop:\ninc A\nloop:\njmp loop");
    assert_eq!(assemble(ir), Err(AssembleError::DuplicateLabel("loop".to_string())));
}

#[test]
fn unresolved_label_is_an_error() {
    let ir = program("jmp nowhere\nhalt");
    assert_eq!(assemble(ir), Err(AssembleError::UnresolvedLabel("nowhere".to_string())));
}

#[test]
fn errors_of_the_first_pass_come_first() {
    // The jump on line 1 refers to nothing, but the duplicate on line 3 is found first.
    let ir = program("jmp nowhere\na:\na:\n");
    assert_eq!(assemble(ir), Err(AssembleError::DuplicateLabel("a".to_string())));
    // Of two errors of the first pass the earlier line wins.
    let ir = program("a:\ninc 5\na:\n");
    assert_eq!(
        assemble(ir),
        Err(AssembleError::UnsupportedOperands {
            command: IRCommand::Inc,
            param1: IRParamType::Immediate,
            param2: IRParamType::Absent,
            line_number: 2,
        })
    );
    let ir = program("a:\na:\ninc 5\n");
    assert_eq!(assemble(ir), Err(AssembleError::DuplicateLabel("a".to_string())));
}

#[test]
fn labels_are_case_sensitive() {
    let ir = program("Loop:\nloop:\njmp Loop\njmp loop");
    let bytes = assemble(ir).unwrap();
    assert_eq!(
        bytes,
        vec![
            0x00, 0x00, 0x00, 0x50, // jmp Loop
            0xff, 0xff, 0xff, 0x50, // jmp loop
            0x00, 0x00, 0x00, 0xee,
        ]
    );
}

#[test]
fn halt_is_appended_once() {
    let without = assemble(program("inc A")).unwrap();
    assert_eq!(without, vec![0x00, 0x00, 0x01, 0x17, 0x00, 0x00, 0x00, 0xee]);
    let with = assemble(program("inc A\nhalt")).unwrap();
    assert_eq!(with, without);
}

#[test]
fn program_ending_in_halt_ends_in_the_halt_opcode() {
    let translation = AssemblyTranslation::new();
    let halt = translation
        .opcode((IRCommand::Halt, IRParamType::Absent, IRParamType::Absent))
        .unwrap();
    let bytes = assemble(program("mov A, 1\nhalt")).unwrap();
    assert_eq!(&bytes[bytes.len() - 4..], &[0x00, 0x00, 0x00, halt]);
    assert_eq!(bytes.len(), 12);
}

#[test]
fn empty_program_is_a_single_halt() {
    assert_eq!(assemble(IR { instructions: vec![] }), Ok(vec![0x00, 0x00, 0x00, 0xee]));
}

#[test]
fn labels_behind_halt_add_no_second_halt() {
    let halt = IRLine::Ins(instruction(IRCommand::Halt, None, None));
    let ir = IR { instructions: vec![halt.clone(), IRLine::Label("end".into())] };
    assert_eq!(assemble(ir), Ok(vec![0x00, 0x00, 0x00, 0xee]));
    let ir = IR {
        instructions: vec![
            halt,
            IRLine::Label("end".into()),
            IRLine::Label("last".into()),
        ],
    };
    assert_eq!(assemble(ir), Ok(vec![0x00, 0x00, 0x00, 0xee]));
    // A label behind the last instruction stands at the end of the output.
    let bytes = assemble(program("jmp end\nhalt\nend:")).unwrap();
    assert_eq!(bytes, vec![0x00, 0x00, 0x02, 0x50, 0x00, 0x00, 0x00, 0xee]);
}

#[test]
fn labels_behind_another_instruction_do_not_stop_the_halt() {
    let bytes = assemble(program("inc A\nend:")).unwrap();
    assert_eq!(bytes, vec![0x00, 0x00, 0x01, 0x17, 0x00, 0x00, 0x00, 0xee]);
    let bytes = assemble(program("halt\ninc A\nend:")).unwrap();
    assert_eq!(
        bytes,
        vec![0x00, 0x00, 0x00, 0xee, 0x00, 0x00, 0x01, 0x17, 0x00, 0x00, 0x00, 0xee]
    );
}

#[test]
fn program_of_labels_alone_is_a_single_halt() {
    let bytes = assemble(program("a:\nb:")).unwrap();
    assert_eq!(bytes, vec![0x00, 0x00, 0x00, 0xee]);
}

#[test]
fn warnings_are_collected_in_order() {
    let ir = program("shl A, 300\nshr B, 3\nadd A, 1000\nlabel:\nshr C, -2");
    assert_eq!(
        range_warnings(&ir),
        vec![
            RangeWarning { command: IRCommand::Shl, value: 300, line_number: 1 },
            RangeWarning { command: IRCommand::Shr, value: -2, line_number: 5 },
        ]
    );
    assert!(assemble(ir).is_ok());
}

#[test]
fn warnings_come_with_the_result() {
    let expected = vec![
        RangeWarning { command: IRCommand::Shl, value: 300, line_number: 1 },
        RangeWarning { command: IRCommand::Shr, value: -2, line_number: 3 },
    ];
    let ir = program("shl A, 300\nshr B, 3\nshr C, -2");
    let (result, warnings) = assemble_with_warnings(ir.clone());
    assert_eq!(result, assemble(ir));
    assert!(result.is_ok());
    assert_eq!(warnings, expected);
    // A label left undefined is found in the second pass, after every warning.
    let (result, warnings) =
        assemble_with_warnings(program("shl A, 300\njmp nowhere\nshr C, -2"));
    assert_eq!(result, Err(AssembleError::UnresolvedLabel("nowhere".to_string())));
    assert_eq!(warnings, expected);
}

#[test]
fn an_error_of_the_first_pass_stops_the_warnings() {
    let first = vec![RangeWarning { command: IRCommand::Shl, value: 300, line_number: 1 }];
    let ir = program("shl A, 300\ninc 5\nshr C, -2");
    assert_eq!(range_warnings(&ir).len(), 2);
    let (result, warnings) = assemble_with_warnings(ir);
    assert!(result.is_err());
    assert_eq!(warnings, first);
    let (result, warnings) = assemble_with_warnings(program("shl A, 300\na:\na:\nshr C, -2"));
    assert_eq!(result, Err(AssembleError::DuplicateLabel("a".to_string())));
    assert_eq!(warnings, first);
    let (result, warnings) = assemble_with_warnings(program("inc 5\nshl A, 300"));
    assert!(result.is_err());
    assert!(warnings.is_empty());
}

#[test]
fn every_table_entry_has_its_opcode() {
    let translation = AssemblyTranslation::new();
    let table = [
        ((IRCommand::Mov, IRParamType::Register, IRParamType::Immediate), 0x01),
        ((IRCommand::Mov, IRParamType::Register, IRParamType::Register), 0x02),
        ((IRCommand::Mov, IRParamType::Register, IRParamType::MemoryAtImmediate), 0x03),
        ((IRCommand::Mov, IRParamType::Register, IRParamType::MemoryAtRegister), 0x04),
        ((IRCommand::Mov, IRParamType::MemoryAtImmediate, IRParamType::Immediate), 0x05),
        ((IRCommand::Mov, IRParamType::MemoryAtRegister, IRParamType::Immediate), 0x06),
        ((IRCommand::Mov, IRParamType::MemoryAtImmediate, IRParamType::Register), 0x07),
        ((IRCommand::Mov, IRParamType::MemoryAtRegister, IRParamType::Register), 0x08),
        ((IRCommand::Add, IRParamType::Register, IRParamType::Immediate), 0x10),
        ((IRCommand::Add, IRParamType::Register, IRParamType::Register), 0x20),
        ((IRCommand::Sub, IRParamType::Register, IRParamType::Immediate), 0x11),
        ((IRCommand::Sub, IRParamType::Register, IRParamType::Register), 0x21),
        ((IRCommand::Mul, IRParamType::Register, IRParamType::Immediate), 0x12),
        ((IRCommand::Mul, IRParamType::Register, IRParamType::Register), 0x22),
        ((IRCommand::Div, IRParamType::Register, IRParamType::Immediate), 0x13),
        ((IRCommand::Div, IRParamType::Register, IRParamType::Register), 0x23),
        ((IRCommand::Mod, IRParamType::Register, IRParamType::Immediate), 0x14),
        ((IRCommand::Mod, IRParamType::Register, IRParamType::Register), 0x24),
        ((IRCommand::Pow, IRParamType::Register, IRParamType::Immediate), 0x15),
        ((IRCommand::Pow, IRParamType::Register, IRParamType::Register), 0x25),
        ((IRCommand::Inc, IRParamType::Register, IRParamType::Absent), 0x17),
        ((IRCommand::Dec, IRParamType::Register, IRParamType::Absent), 0x18),
        ((IRCommand::And, IRParamType::Register, IRParamType::Immediate), 0x1a),
        ((IRCommand::And, IRParamType::Register, IRParamType::Register), 0x2a),
        ((IRCommand::Or, IRParamType::Register, IRParamType::Immediate), 0x1b),
        ((IRCommand::Or, IRParamType::Register, IRParamType::Register), 0x2b),
        ((IRCommand::Xor, IRParamType::Register, IRParamType::Immediate), 0x1c),
        ((IRCommand::Xor, IRParamType::Register, IRParamType::Register), 0x2c),
        ((IRCommand::Shl, IRParamType::Register, IRParamType::Immediate), 0x1d),
        ((IRCommand::Shl, IRParamType::Register, IRParamType::Register), 0x2d),
        ((IRCommand::Shr, IRParamType::Register, IRParamType::Immediate), 0x1e),
        ((IRCommand::Shr, IRParamType::Register, IRParamType::Register), 0x2e),
        ((IRCommand::Not, IRParamType::Register, IRParamType::Absent), 0x1f),
        ((IRCommand::Cmp, IRParamType::Register, IRParamType::Immediate), 0x16),
        ((IRCommand::Cmp, IRParamType::Register, IRParamType::Register), 0x26),
        ((IRCommand::Jmp, IRParamType::Label, IRParamType::Absent), 0x50),
        ((IRCommand::Jz, IRParamType::Label, IRParamType::Absent), 0x51),
        ((IRCommand::Jnz, IRParamType::Label, IRParamType::Absent), 0x52),
        ((IRCommand::Js, IRParamType::Label, IRParamType::Absent), 0x53),
        ((IRCommand::Jns, IRParamType::Label, IRParamType::Absent), 0x54),
        ((IRCommand::Jle, IRParamType::Label, IRParamType::Absent), 0x55),
        ((IRCommand::Jgt, IRParamType::Label, IRParamType::Absent), 0x56),
        ((IRCommand::Push, IRParamType::Immediate, IRParamType::Absent), 0x60),
        ((IRCommand::Push, IRParamType::Register, IRParamType::Absent), 0x61),
        ((IRCommand::Pop, IRParamType::Register, IRParamType::Absent), 0x62),
        ((IRCommand::Call, IRParamType::Label, IRParamType::Absent), 0x70),
        ((IRCommand::Int, IRParamType::Register, IRParamType::Absent), 0x72),
        ((IRCommand::Ret, IRParamType::Absent, IRParamType::Absent), 0x71),
        ((IRCommand::Halt, IRParamType::Absent, IRParamType::Absent), 0xee),
        ((IRCommand::Nop, IRParamType::Absent, IRParamType::Absent), 0xff),
    ];
    for (signature, opcode) in table {
        assert_eq!(translation.opcode(signature), Some(opcode));
    }
    assert_eq!(translation.opcode((IRCommand::Mov, IRParamType::Immediate, IRParamType::Register)), None);
    assert_eq!(translation.opcode((IRCommand::Jmp, IRParamType::Register, IRParamType::Absent)), None);
    assert_eq!(translation.opcode((IRCommand::Ret, IRParamType::Register, IRParamType::Absent)), None);
    for (signature, _) in table {
        let narrow = signature == (IRCommand::Shl, IRParamType::Register, IRParamType::Immediate) || signature == (IRCommand::Shr, IRParamType::Register, IRParamType::Immediate);
        assert_eq!(translation.byte_immediate(signature), narrow);
    }
}

#[test]
fn register_codes_run_from_one_to_six() {
    assert_eq!(IRRegister::A.code(), 1);
    assert_eq!(IRRegister::B.code(), 2);
    assert_eq!(IRRegister::C.code(), 3);
    assert_eq!(IRRegister::D.code(), 4);
    assert_eq!(IRRegister::IP.code(), 5);
    assert_eq!(IRRegister::SP.code(), 6);
}
