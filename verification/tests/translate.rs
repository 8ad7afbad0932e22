use assembler::ir::{
    instruction_signature, param_type, IRCommand, IRInstruction, IRLine, IRParamType, IRParameter,
    IRRegister,
};
use assembler::operand::{ParseError, ParseErrorKind};
use assembler::translate::IRTranslationTable;

fn error(kind: ParseErrorKind, token: &str, line_number: usize) -> ParseError {
    ParseError { kind, token: token.to_string(), line_number }
}

fn ins(
    command: IRCommand,
    param1: Option<IRParameter>,
    param2: Option<IRParameter>,
    line_number: usize,
) -> IRLine {
    IRLine::Ins(IRInstruction { command, param1, param2, line_number })
}

#[test]
fn blank_and_comment_lines_give_nothing() {
    let table = IRTranslationTable::new();
    for line in ["", " ", "\t", "   \t  ", ";", "; a comment", "   ; mov A, 1", "\t;;", "\u{a0}\u{2003};x"] {
        assert_eq!(table.translate_line(line, 1), Ok(None));
        assert_eq!(table.create_intermediate(line, 1), None);
    }
}

#[test]
fn label_definitions() {
    let table = IRTranslationTable::new();
    assert_eq!(table.translate_line("loop:", 3), Ok(Some(IRLine::Label("loop".to_string()))));
    assert_eq!(table.translate_line("  L1:  ; start", 3), Ok(Some(IRLine::Label("L1".to_string()))));
    assert_eq!(table.translate_line("größe:", 3), Ok(Some(IRLine::Label("größe".to_string()))));
    assert_eq!(table.translate_line("a:", 3), Ok(Some(IRLine::Label("a".to_string()))));
    // What follows the label on its line is not looked at.
    assert_eq!(table.translate_line("a: mov A, 1", 3), Ok(Some(IRLine::Label("a".to_string()))));
}

#[test]
fn heads_with_a_colon_that_define_no_label() {
    let table = IRTranslationTable::new();
    // A name must begin with a letter and hold letters and digits only.
    assert_eq!(
        table.translate_line("1a:", 4),
        Err(error(ParseErrorKind::UnknownCommand, "1a:", 4))
    );
    assert_eq!(
        table.translate_line("a_b:", 4),
        Err(error(ParseErrorKind::UnknownCommand, "a_b:", 4))
    );
    assert_eq!(table.translate_line(":", 4), Err(error(ParseErrorKind::UnknownCommand, ":", 4)));
    assert_eq!(
        table.translate_line("A-B:", 4),
        Err(error(ParseErrorKind::UnknownCommand, "a-b:", 4))
    );
}

#[test]
fn instructions_without_operands() {
    let table = IRTranslationTable::new();
    assert_eq!(table.translate_line("halt", 1), Ok(Some(ins(IRCommand::Halt, None, None, 1))));
    assert_eq!(table.translate_line("  ret   ", 2), Ok(Some(ins(IRCommand::Ret, None, None, 2))));
    assert_eq!(table.translate_line("NOP;x", 9), Ok(Some(ins(IRCommand::Nop, None, None, 9))));
}

#[test]
fn instructions_with_operands() {
    let table = IRTranslationTable::new();
    assert_eq!(
        table.translate_line("mov A, 5", 1),
        Ok(Some(ins(
            IRCommand::Mov,
            Some(IRParameter::Reg(IRRegister::A)),
            Some(IRParameter::Imm(5)),
            1
        )))
    );
    assert_eq!(
        table.translate_line("\tMov\t b ,[ sp ] ; load", 12),
        Ok(Some(ins(
            IRCommand::Mov,
            Some(IRParameter::Reg(IRRegister::B)),
            Some(IRParameter::MemReg(IRRegister::SP)),
            12
        )))
    );
    assert_eq!(
        table.translate_line("mov [0x10],-3", 1),
        Ok(Some(ins(
            IRCommand::Mov,
            Some(IRParameter::MemImm(16)),
            Some(IRParameter::Imm(-3)),
            1
        )))
    );
    assert_eq!(
        table.translate_line("jle loop", 5),
        Ok(Some(ins(IRCommand::Jle, Some(IRParameter::Label("loop".to_string())), None, 5)))
    );
    assert_eq!(
        table.translate_line("push 7", 5),
        Ok(Some(ins(IRCommand::Push, Some(IRParameter::Imm(7)), None, 5)))
    );
}

#[test]
fn mnemonics_and_their_commands() {
    let table = IRTranslationTable::new();
    let expected = [
        ("mov", IRCommand::Mov),
        ("add", IRCommand::Add),
        ("sub", IRCommand::Sub),
        ("mul", IRCommand::Mul),
        ("div", IRCommand::Div),
        ("mod", IRCommand::Mod),
        ("pow", IRCommand::Pow),
        ("inc", IRCommand::Inc),
        ("dec", IRCommand::Dec),
        ("and", IRCommand::And),
        ("or", IRCommand::Or),
        ("xor", IRCommand::Xor),
        ("shl", IRCommand::Shl),
        ("shr", IRCommand::Shr),
        ("not", IRCommand::Not),
        ("cmp", IRCommand::Cmp),
        ("jmp", IRCommand::Jmp),
        ("jz", IRCommand::Jz),
        ("jnz", IRCommand::Jnz),
        ("js", IRCommand::Js),
        ("jns", IRCommand::Jns),
        ("je", IRCommand::Jz),
        ("jne", IRCommand::Jnz),
        ("jlt", IRCommand::Js),
        ("jge", IRCommand::Jns),
        ("jle", IRCommand::Jle),
        ("jgt", IRCommand::Jgt),
        ("push", IRCommand::Push),
        ("pop", IRCommand::Pop),
        ("call", IRCommand::Call),
        ("int", IRCommand::Int),
        ("ret", IRCommand::Ret),
        ("halt", IRCommand::Halt),
        ("nop", IRCommand::Nop),
    ];
    assert_eq!(IRCommand::translation_table().len(), expected.len());
    for (name, command) in expected {
        assert_eq!(table.lookup(&name.to_string()), Some(command));
        assert_eq!(table.translate_line(name, 1), Ok(Some(ins(command, None, None, 1))));
        assert_eq!(
            table.translate_line(&name.to_uppercase(), 1),
            Ok(Some(ins(command, None, None, 1)))
        );
    }
    assert_eq!(table.lookup(&"MOV".to_string()), None);
    assert_eq!(table.lookup(&"".to_string()), None);
    assert_eq!(table.lookup(&"mo".to_string()), None);
    assert_eq!(table.lookup(&"movv".to_string()), None);
}

#[test]
fn unknown_command_is_reported_in_lower_case() {
    let table = IRTranslationTable::new();
    assert_eq!(
        table.translate_line("  Frobnicate A, B", 8),
        Err(error(ParseErrorKind::UnknownCommand, "frobnicate", 8))
    );
    assert_eq!(table.create_intermediate("  Frobnicate A, B", 8), None);
    // Only the letters A to Z are lowered.
    assert_eq!(
        table.translate_line("ÄB", 8),
        Err(error(ParseErrorKind::UnknownCommand, "Äb", 8))
    );
}

#[test]
fn more_than_two_operands_are_an_error() {
    let table = IRTranslationTable::new();
    assert_eq!(
        table.translate_line("mov A, B, C", 2),
        Err(error(ParseErrorKind::TooManyOperands, "A, B, C", 2))
    );
    assert_eq!(
        table.translate_line("mov ,,", 2),
        Err(error(ParseErrorKind::TooManyOperands, ",,", 2))
    );
}

#[test]
fn empty_operands_are_an_error() {
    let table = IRTranslationTable::new();
    assert_eq!(table.translate_line("mov A,", 2), Err(error(ParseErrorKind::EmptyOperand, "", 2)));
    assert_eq!(table.translate_line("mov ,A", 2), Err(error(ParseErrorKind::EmptyOperand, "", 2)));
    assert_eq!(table.translate_line("mov ,", 2), Err(error(ParseErrorKind::EmptyOperand, "", 2)));
    assert_eq!(table.translate_line("push []", 2), Err(error(ParseErrorKind::EmptyOperand, "", 2)));
    assert_eq!(table.translate_line("push [", 2), Err(error(ParseErrorKind::InvalidOperand, "[", 2)));
    assert_eq!(IRParameter::from("", 6), Err(error(ParseErrorKind::EmptyOperand, "", 6)));
    assert_eq!(IRParameter::from("  \t ", 6), Err(error(ParseErrorKind::EmptyOperand, "", 6)));
}

#[test]
fn the_error_of_the_first_operand_wins() {
    let table = IRTranslationTable::new();
    assert_eq!(
        table.translate_line("mov 1x, $", 2),
        Err(error(ParseErrorKind::InvalidNumber, "1x", 2))
    );
    assert_eq!(
        table.translate_line("mov $, 1x", 2),
        Err(error(ParseErrorKind::InvalidOperand, "$", 2))
    );
}

#[test]
fn registers_in_either_case() {
    for (name, register) in [
        ("A", IRRegister::A),
        ("a", IRRegister::A),
        ("B", IRRegister::B),
        ("b", IRRegister::B),
        ("C", IRRegister::C),
        ("c", IRRegister::C),
        ("D", IRRegister::D),
        ("d", IRRegister::D),
        ("IP", IRRegister::IP),
        ("ip", IRRegister::IP),
        ("Ip", IRRegister::IP),
        ("iP", IRRegister::IP),
        ("SP", IRRegister::SP),
        ("sp", IRRegister::SP),
        ("Sp", IRRegister::SP),
        ("sP", IRRegister::SP),
    ] {
        assert_eq!(IRRegister::from(name), Some(register));
        assert_eq!(IRParameter::from(name, 1), Ok(IRParameter::Reg(register)));
        assert_eq!(
            IRParameter::from(&format!(" [{}] ", name), 1),
            Ok(IRParameter::MemReg(register))
        );
    }
    for name in ["", "e", "ap", "pi", "spp", "a ", "\u{17f}p", "ıp"] {
        assert_eq!(IRRegister::from(name), None);
    }
}

#[test]
fn labels_are_names_of_letters_and_digits() {
    // Only the digits 0 to 9 begin a number: a digit of another script begins a label.
    for name in ["loop", "x1", "e", "Ende", "größe", "ab12cd", "ap", "x٣", "١"] {
        assert_eq!(IRParameter::from(name, 1), Ok(IRParameter::Label(name.to_string())));
    }
    assert_eq!(IRParameter::from("  loop\t", 1), Ok(IRParameter::Label("loop".to_string())));
    for token in ["a_b", "a b", "a.b", "$x", "a:", "[a", "a]", "x-1"] {
        assert_eq!(
            IRParameter::from(token, 4),
            Err(error(ParseErrorKind::InvalidOperand, token, 4))
        );
    }
}

#[test]
fn decimal_literals() {
    for (text, value) in [
        ("0", 0),
        ("5", 5),
        ("+5", 5),
        ("-5", -5),
        ("-0", 0),
        ("007", 7),
        ("2147483647", i32::MAX),
        ("+2147483647", i32::MAX),
        ("-2147483648", i32::MIN),
        ("0000000000000000000002147483647", i32::MAX),
        ("-00000000000000000000000000001", -1),
    ] {
        assert_eq!(IRParameter::from(text, 1), Ok(IRParameter::Imm(value)));
        assert_eq!(text.parse::<i32>(), Ok(value));
    }
}

#[test]
fn hexadecimal_literals() {
    for (text, value) in [
        ("0x0", 0),
        ("0x10", 16),
        ("0xff", 255),
        ("0xFF", 255),
        ("0xaBcDeF", 0xabcdef),
        ("0x7fffffff", i32::MAX),
        ("0x80000000", i32::MIN),
        ("0xffffffff", -1),
        ("0x00000000000000ffffffff", -1),
    ] {
        assert_eq!(IRParameter::from(text, 1), Ok(IRParameter::Imm(value)));
        assert_eq!(u32::from_str_radix(&text[2..], 16).map(|v| v as i32), Ok(value));
    }
}

#[test]
fn malformed_numbers() {
    for text in [
        "+", "-", "1x", "12a", "--1", "+-1", "-+1", "1 2", "2147483648", "-2147483649",
        "99999999999999999999999999", "-99999999999999999999999999", "0x", "0x-1", "0xg",
        "0x100000000", "0X10", "0x 1", "1_000", "1.5", "0x++1", "0x+", "0x+10", "+0x", "-0x",
        "-0x80000000", "-0x100000000", "+0x100000000", "+-0x10", "-+0x10", "--0x10", "-0X10",
        "-0x-10", "+0xg",
    ] {
        assert_eq!(IRParameter::from(text, 3), Err(error(ParseErrorKind::InvalidNumber, text, 3)));
    }
}

#[test]
fn signed_hexadecimal_literals() {
    for (text, value) in [
        ("-0x10", -16),
        ("+0x10", 16),
        ("-0x0", 0),
        ("+0x0", 0),
        ("-0x1", -1),
        ("-0xff", -255),
        ("+0x7fffffff", i32::MAX),
        ("-0x7fffffff", -i32::MAX),
        ("+0x80000000", i32::MIN),
        ("+0xffffffff", -1),
        // The body is the 32 bits of -1, and the sign negates that value.
        ("-0xffffffff", 1),
        ("-0x80000001", i32::MAX),
        ("-0x000000010", -16),
    ] {
        assert_eq!(IRParameter::from(text, 1), Ok(IRParameter::Imm(value)));
    }
    assert_eq!(IRParameter::from(" [-0x10] ", 1), Ok(IRParameter::MemImm(-16)));
}

#[test]
fn bracketed_operands() {
    assert_eq!(IRParameter::from("[A]", 1), Ok(IRParameter::MemReg(IRRegister::A)));
    assert_eq!(IRParameter::from("[ 5 ]", 1), Ok(IRParameter::MemImm(5)));
    assert_eq!(IRParameter::from("[-0x10]", 1), Ok(IRParameter::MemImm(-16)));
    assert_eq!(IRParameter::from("[0xffffffff]", 1), Ok(IRParameter::MemImm(-1)));
    // What stands between the brackets must be a register or a number.
    assert_eq!(IRParameter::from("[loop]", 2), Err(error(ParseErrorKind::InvalidOperand, "[loop]", 2)));
    assert_eq!(IRParameter::from("[[A]]", 2), Err(error(ParseErrorKind::InvalidOperand, "[[A]]", 2)));
    assert_eq!(IRParameter::from(" [[5]] ", 2), Err(error(ParseErrorKind::InvalidOperand, "[[5]]", 2)));
    // An error between the brackets is reported as it is.
    assert_eq!(IRParameter::from("[1x]", 2), Err(error(ParseErrorKind::InvalidNumber, "1x", 2)));
    assert_eq!(IRParameter::from("[ ]", 2), Err(error(ParseErrorKind::EmptyOperand, "", 2)));
    assert_eq!(IRParameter::from("[a b]", 2), Err(error(ParseErrorKind::InvalidOperand, "a b", 2)));
    assert_eq!(IRParameter::from("[[x]", 2), Err(error(ParseErrorKind::InvalidOperand, "[x", 2)));
}

#[test]
fn kinds_of_operands() {
    assert_eq!(IRParameter::Reg(IRRegister::A).param_type(), IRParamType::Register);
    assert_eq!(IRParameter::Imm(1).param_type(), IRParamType::Immediate);
    assert_eq!(IRParameter::Label("x".to_string()).param_type(), IRParamType::Label);
    assert_eq!(IRParameter::MemReg(IRRegister::A).param_type(), IRParamType::MemoryAtRegister);
    assert_eq!(IRParameter::MemImm(1).param_type(), IRParamType::MemoryAtImmediate);
    assert_eq!(param_type(&None), IRParamType::Absent);
    assert_eq!(param_type(&Some(IRParameter::Imm(3))), IRParamType::Immediate);
    let instruction = IRInstruction {
        command: IRCommand::Mov,
        param1: Some(IRParameter::MemReg(IRRegister::B)),
        param2: Some(IRParameter::Imm(3)),
        line_number: 1,
    };
    assert_eq!(
        instruction_signature(&instruction),
        (IRCommand::Mov, IRParamType::MemoryAtRegister, IRParamType::Immediate)
    );
}

#[test]
fn whitespace_of_every_kind_separates() {
    let table = IRTranslationTable::new();
    let expected = Ok(Some(ins(
        IRCommand::Add,
        Some(IRParameter::Reg(IRRegister::A)),
        Some(IRParameter::Imm(1)),
        1,
    )));
    for line in ["add A,1", "add\tA,1", "add\u{a0}A,1", "\u{3000}add\u{2003}A\u{2009},\u{2009}1\u{a0}", "add  A , 1 "] {
        assert_eq!(table.translate_line(line, 1), expected);
    }
}

#[test]
fn program_keeps_good_lines_and_reports_bad_ones() {
    let table = IRTranslationTable::new();
    let source: Vec<String> = [
        "; counts to ten",
        "mov A, 1",
        "loop:",
        "  inc A",
        "  bogus A",
        "  cmp A, 10x",
        "  jle loop",
        "",
        "halt",
    ]
    .iter()
    .map(|line| line.to_string())
    .collect();
    let (ir, errors) = table.translate_program(&source);
    assert_eq!(
        ir.instructions,
        vec![
            ins(IRCommand::Mov, Some(IRParameter::Reg(IRRegister::A)), Some(IRParameter::Imm(1)), 2),
            IRLine::Label("loop".to_string()),
            ins(IRCommand::Inc, Some(IRParameter::Reg(IRRegister::A)), None, 4),
            ins(IRCommand::Jle, Some(IRParameter::Label("loop".to_string())), None, 7),
            ins(IRCommand::Halt, None, None, 9),
        ]
    );
    assert_eq!(
        errors,
        vec![
            error(ParseErrorKind::UnknownCommand, "bogus", 5),
            error(ParseErrorKind::InvalidNumber, "10x", 6),
        ]
    );
}

#[test]
fn empty_source_is_an_empty_program() {
    let table = IRTranslationTable::new();
    let (ir, errors) = table.translate_program(&Vec::new());
    assert!(ir.instructions.is_empty());
    assert!(errors.is_empty());
}

fn has_white_space_property(c: char) -> bool {
    matches!(
        c,
        '\u{9}'..='\u{d}'
            | ' '
            | '\u{85}'
            | '\u{a0}'
            | '\u{1680}'
            | '\u{2000}'..='\u{200a}'
            | '\u{2028}'
            | '\u{2029}'
            | '\u{202f}'
            | '\u{205f}'
            | '\u{3000}'
    )
}

#[test]
fn whitespace_is_the_unicode_property() {
    let mut code: u32 = 0;
    let mut count = 0;
    while code <= 0x10ffff {
        if let Some(c) = char::from_u32(code) {
            // Only whitespace around it is trimmed off the name of the register.
            let operand = format!("{}A{}", c, c);
            let trimmed = IRParameter::from(&operand, 1) == Ok(IRParameter::Reg(IRRegister::A));
            assert_eq!(trimmed, has_white_space_property(c), "U+{:04X}", code);
            if trimmed {
                count += 1;
            }
        }
        // Every character of the first plane, and one in seventeen beyond it.
        code += if code < 0x1_0000 { 1 } else { 17 };
    }
    assert_eq!(count, 25);
}

#[test]
fn letters_and_digits_of_ascii() {
    let table = IRTranslationTable::new();
    for code in 0u32..0x80 {
        let c = char::from_u32(code).unwrap();
        if has_white_space_property(c) {
            continue;
        }
        let letter = ('a'..='z').contains(&c) || ('A'..='Z').contains(&c);
        let digit = ('0'..='9').contains(&c);
        // A label is defined by a name that begins with a letter.
        let defined = table.translate_line(&format!("{}x:", c), 1);
        assert_eq!(
            defined == Ok(Some(IRLine::Label(format!("{}x", c)))),
            letter,
            "U+{:04X}",
            code
        );
        // A label is referred to by a name of letters and digits.
        let referred = IRParameter::from(&format!("x{}", c), 1);
        assert_eq!(
            referred == Ok(IRParameter::Label(format!("x{}", c))),
            letter || digit,
            "U+{:04X}",
            code
        );
    }
}
