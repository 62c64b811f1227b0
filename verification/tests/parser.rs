use vc2::encoding::Register;
use vc2::error::{Error, ErrorKind, Position};
use vc2::instructions::{
    instruction_from_text, Instruction, InstructionOrLabel, JmpVariant, NamedInstruction,
    PreprocessorCommand, Target,
};
use vc2::Parser;

fn items(source: &[u8]) -> Vec<Result<InstructionOrLabel, Error>> {
    Parser::new(source).parse()
}

fn at(cursor: usize, line: usize, character: usize) -> Position {
    Position { cursor, line, character }
}

#[test]
fn parse_target() {
    let mut parser = Parser::new(b"r0 r1 fl pc 4321");
    let r0 = parser.parse_target().unwrap();
    assert_eq!(parser.current(), b' ');
    assert_eq!(Target::Register(Register::GeneralPurpose0), r0);
    parser.step();
    let r1 = parser.parse_target().unwrap();
    assert_eq!(parser.current(), b' ');
    assert_eq!(Target::Register(Register::GeneralPurpose1), r1);
    parser.step();
    let fl = parser.parse_target().unwrap();
    assert_eq!(parser.current(), b' ');
    assert_eq!(Target::Register(Register::Flag), fl);
    parser.step();
    let pc = parser.parse_target().unwrap();
    assert_eq!(parser.current(), b' ');
    assert_eq!(Target::Register(Register::ProgramCounter), pc);
    parser.step();
    let imm = parser.parse_target().unwrap();
    assert_eq!(Target::Immediate(4321), imm);
    assert!(parser.done());
}

#[test]
fn parse_address_target() {
    let mut parser = Parser::new(b"[r0] [ r1 ] [fl] [pc] [ 4321 ]");

    let r0 = parser.parse_target().unwrap();
    assert_eq!(Target::RegisterAddress(Register::GeneralPurpose0), r0);
    assert_eq!(parser.current(), b' ');
    parser.step();

    let r1 = parser.parse_target().unwrap();
    assert_eq!(Target::RegisterAddress(Register::GeneralPurpose1), r1);
    assert_eq!(parser.current(), b' ');
    parser.step();

    let fl = parser.parse_target().unwrap();
    assert_eq!(Target::RegisterAddress(Register::Flag), fl);
    assert_eq!(parser.current(), b' ');
    parser.step();

    let pc = parser.parse_target().unwrap();
    assert_eq!(Target::RegisterAddress(Register::ProgramCounter), pc);
    assert_eq!(parser.current(), b' ');
    parser.step();

    let imm = parser.parse_target().unwrap();
    assert_eq!(Target::ImmediateAddress(4321), imm);
    assert!(parser.done());
}

#[test]
fn names_and_sub_names_are_targets() {
    let mut parser = Parser::new(b"end .loop [table] [.slot]");
    assert_eq!(parser.parse_target().unwrap(), Target::Constant(b"end".to_vec()));
    assert_eq!(parser.parse_target().unwrap(), Target::SubConstant(b"loop".to_vec()));
    assert_eq!(parser.parse_target().unwrap(), Target::ConstantAddress(b"table".to_vec()));
    assert_eq!(parser.parse_target().unwrap(), Target::SubConstantAddress(b"slot".to_vec()));
    assert!(parser.done());
}

#[test]
fn numbers_in_every_radix() {
    let mut parser = Parser::new(b"0x1F 0b1010 1_000_000 0xDEAD_BEEF 4294967295 -1 -2147483648 +7");
    assert_eq!(parser.parse_target().unwrap(), Target::Immediate(0x1f));
    assert_eq!(parser.parse_target().unwrap(), Target::Immediate(10));
    assert_eq!(parser.parse_target().unwrap(), Target::Immediate(1_000_000));
    assert_eq!(parser.parse_target().unwrap(), Target::Immediate(0xdead_beef));
    assert_eq!(parser.parse_target().unwrap(), Target::Immediate(0xffff_ffff));
    assert_eq!(parser.parse_target().unwrap(), Target::Immediate(0xffff_ffff));
    assert_eq!(parser.parse_target().unwrap(), Target::Immediate(0x8000_0000));
    assert_eq!(parser.parse_target().unwrap(), Target::Immediate(7));
    assert!(parser.done());
}

#[test]
fn character_literals_with_escapes() {
    let mut parser = Parser::new(b"'a' '\\n' '\\r' '\\t' '\\0' '\\\\' '\\''");
    for expected in [0x61u32, 0x0a, 0x0d, 0x09, 0x00, 0x5c, 0x27] {
        assert_eq!(parser.parse_target().unwrap(), Target::Immediate(expected));
    }
    assert!(parser.done());
}

#[test]
fn number_errors_span_the_word() {
    let mut parser = Parser::new(b"  4294967296");
    assert_eq!(
        parser.parse_target(),
        Err(Error { kind: ErrorKind::NumberOutOfRange, from: at(2, 1, 3), to: at(11, 1, 12) })
    );
    let mut parser = Parser::new(b"-2147483649");
    assert_eq!(parser.parse_target().unwrap_err().kind, ErrorKind::NumberOutOfRange);
    let mut parser = Parser::new(b"12ab");
    assert_eq!(
        parser.parse_target(),
        Err(Error { kind: ErrorKind::InvalidNumber, from: at(0, 1, 1), to: at(3, 1, 4) })
    );
    let mut parser = Parser::new(b"0x");
    assert_eq!(parser.parse_target().unwrap_err().kind, ErrorKind::InvalidNumber);
    let mut parser = Parser::new(b"99999999999999999999");
    assert_eq!(parser.parse_target().unwrap_err().kind, ErrorKind::InvalidNumber);
    let mut parser = Parser::new(b"0b102");
    assert_eq!(parser.parse_target().unwrap_err().kind, ErrorKind::InvalidNumber);
}

#[test]
fn character_literal_errors() {
    let mut parser = Parser::new(b"'");
    assert_eq!(parser.parse_target().unwrap_err().kind, ErrorKind::UnexpectedEndOfCharLiteral);
    let mut parser = Parser::new(b"'a");
    assert_eq!(parser.parse_target().unwrap_err().kind, ErrorKind::UnexpectedEndOfCharLiteral);
    let mut parser = Parser::new(b"'ab'");
    assert_eq!(parser.parse_target().unwrap_err().kind, ErrorKind::ExpectedSingleQuote(b'b'));
    let mut parser = Parser::new(b"'\\q'");
    assert_eq!(parser.parse_target().unwrap_err().kind, ErrorKind::InvalidEscape(b'q'));
}

#[test]
fn unclosed_bracket_is_an_error() {
    let mut parser = Parser::new(b"[r0 r1");
    assert_eq!(
        parser.parse_target(),
        Err(Error {
            kind: ErrorKind::ExpectedClosingBracket(b'r'),
            from: at(4, 1, 5),
            to: at(4, 1, 5)
        })
    );
    assert!(parser.done());
    let mut parser = Parser::new(b"[r0");
    assert_eq!(parser.parse_target().unwrap_err().kind, ErrorKind::UnexpectedEndOfInput);
}

#[test]
fn an_empty_source_is_one_end() {
    assert_eq!(items(b""), vec![Ok(InstructionOrLabel::EOF)]);
}

#[test]
fn every_mnemonic_is_known() {
    let table: [(&[u8], NamedInstruction); 21] = [
        (b"nop", NamedInstruction::Nop),
        (b"hlt", NamedInstruction::Hlt),
        (b"mov", NamedInstruction::Mov),
        (b"not", NamedInstruction::Not),
        (b"or", NamedInstruction::Or),
        (b"and", NamedInstruction::And),
        (b"xor", NamedInstruction::Xor),
        (b"shl", NamedInstruction::Shl),
        (b"shr", NamedInstruction::Shr),
        (b"add", NamedInstruction::Add),
        (b"sub", NamedInstruction::Sub),
        (b"mul", NamedInstruction::Mul),
        (b"imul", NamedInstruction::IMul),
        (b"div", NamedInstruction::Div),
        (b"idiv", NamedInstruction::IDiv),
        (b"rem", NamedInstruction::Rem),
        (b"cmp", NamedInstruction::Cmp),
        (b"jmp", NamedInstruction::Jmp),
        (b"jmpabs", NamedInstruction::JmpAbs),
        (b"jz", NamedInstruction::Jz),
        (b"jnz", NamedInstruction::Jnz),
    ];
    for (text, expected) in table {
        assert_eq!(instruction_from_text(text), Some(expected));
    }
    assert_eq!(instruction_from_text(b"htl"), None);
    assert_eq!(instruction_from_text(b"MOV"), None);
    assert_eq!(instruction_from_text(b""), None);
}

#[test]
fn a_program_parses_line_by_line() {
    let parsed = items(
        b"start: mov r0, 5 ; five\n  add r0, [r1]\n.loop:\njmp start\njmpabs 0x10\nnot [0x20]\nhlt\n",
    );
    assert_eq!(
        parsed,
        vec![
            Ok(InstructionOrLabel::Label(b"start".to_vec())),
            Ok(InstructionOrLabel::Instruction(Instruction::Mov(
                Target::Register(Register::GeneralPurpose0),
                Target::Immediate(5)
            ))),
            Ok(InstructionOrLabel::Instruction(Instruction::Add(
                Target::Register(Register::GeneralPurpose0),
                Target::RegisterAddress(Register::GeneralPurpose1)
            ))),
            Ok(InstructionOrLabel::SubLabel(b"loop".to_vec())),
            Ok(InstructionOrLabel::Instruction(Instruction::Jmp(
                Target::Constant(b"start".to_vec()),
                JmpVariant::Relative
            ))),
            Ok(InstructionOrLabel::Instruction(Instruction::Jmp(
                Target::Immediate(0x10),
                JmpVariant::Absolute
            ))),
            Ok(InstructionOrLabel::Instruction(Instruction::Not(Target::ImmediateAddress(0x20)))),
            Ok(InstructionOrLabel::Instruction(Instruction::Hlt)),
            Ok(InstructionOrLabel::EOF),
            Ok(InstructionOrLabel::EOF),
        ]
    );
}

#[test]
fn directives() {
    let source: &[u8] = b"%define K 0xAA\n%define .sub 'x'\n%offset 3\n%offset_word 2\n\
        dw 0x41424344\ndb 1, 2 \"hi\\n\" 255\n";
    let parsed = items(source);
    assert_eq!(
        parsed,
        vec![
            Ok(InstructionOrLabel::PreprocessorCommand(PreprocessorCommand::Define(
                b"K".to_vec(),
                0xaa
            ))),
            Ok(InstructionOrLabel::PreprocessorCommand(PreprocessorCommand::DefineSub(
                b"sub".to_vec(),
                0x78
            ))),
            Ok(InstructionOrLabel::PreprocessorCommand(PreprocessorCommand::Offset(3))),
            Ok(InstructionOrLabel::PreprocessorCommand(PreprocessorCommand::Offset(8))),
            Ok(InstructionOrLabel::PreprocessorCommand(PreprocessorCommand::DeclareWord(
                0x4142_4344
            ))),
            Ok(InstructionOrLabel::PreprocessorCommand(PreprocessorCommand::DeclareBytes(vec![
                1, 2, b'h', b'i', b'\n', 255
            ]))),
            Ok(InstructionOrLabel::EOF),
        ]
    );
}

#[test]
fn a_missing_comma_is_an_error() {
    let parsed = items(b"mov r0 r1\nhlt");
    assert_eq!(
        parsed,
        vec![
            Err(Error { kind: ErrorKind::ExpectedComma(b'r'), from: at(7, 1, 8), to: at(7, 1, 8) }),
            Ok(InstructionOrLabel::Instruction(Instruction::Hlt)),
            Ok(InstructionOrLabel::EOF),
        ]
    );
}

#[test]
fn dangling_text_is_an_error() {
    let parsed = items(b"nop r0\nhlt ; fine\n");
    assert_eq!(
        parsed,
        vec![
            Err(Error {
                kind: ErrorKind::ExpectedEndOfLine(b'r'),
                from: at(4, 1, 5),
                to: at(4, 1, 5)
            }),
            Ok(InstructionOrLabel::Instruction(Instruction::Hlt)),
            Ok(InstructionOrLabel::EOF),
        ]
    );
    let parsed = items(b"%offset 3 4\n");
    assert_eq!(parsed[0].clone().unwrap_err().kind, ErrorKind::ExpectedEndOfLine(b'4'));
}

#[test]
fn an_unknown_word_needs_a_colon() {
    let parsed = items(b"mvo r0, 1\n");
    assert_eq!(
        parsed,
        vec![
            Err(Error {
                kind: ErrorKind::UnknownMnemonic(b' '),
                from: at(3, 1, 4),
                to: at(3, 1, 4)
            }),
            Ok(InstructionOrLabel::EOF),
        ]
    );
}

#[test]
fn an_unexpected_byte_is_passed_alone() {
    let parsed = items(b"\n\n  #\nhlt");
    assert_eq!(
        parsed,
        vec![
            Err(Error {
                kind: ErrorKind::UnexpectedCharacter(b'#'),
                from: at(4, 3, 3),
                to: at(4, 3, 3)
            }),
            Ok(InstructionOrLabel::Instruction(Instruction::Hlt)),
            Ok(InstructionOrLabel::EOF),
        ]
    );
}

#[test]
fn directive_errors() {
    let parsed = items(b"%include x\n");
    assert_eq!(
        parsed[0],
        Err(Error {
            kind: ErrorKind::UnknownPreprocessorCommand,
            from: at(1, 1, 2),
            to: at(7, 1, 8)
        })
    );
    let parsed = items(b"%offset_word 0x40000000\n");
    assert_eq!(parsed[0].clone().unwrap_err().kind, ErrorKind::NumberOutOfRange);
    let parsed = items(b"%offset_word 0x3fffffff\n");
    assert_eq!(
        parsed[0],
        Ok(InstructionOrLabel::PreprocessorCommand(PreprocessorCommand::Offset(0xffff_fffc)))
    );
    let parsed = items(b"db 256\n");
    assert_eq!(
        parsed[0],
        Err(Error { kind: ErrorKind::ByteOutOfRange, from: at(3, 1, 4), to: at(5, 1, 6) })
    );
    let parsed = items(b"db \"open\nhlt");
    assert_eq!(
        parsed[0],
        Err(Error { kind: ErrorKind::UnterminatedString, from: at(8, 1, 9), to: at(8, 1, 9) })
    );
    let parsed = items(b"db \"a\\z\"\n");
    assert_eq!(parsed[0].clone().unwrap_err().kind, ErrorKind::InvalidEscape(b'z'));
    let parsed = items(b"dw \xff\n");
    assert_eq!(
        parsed[0],
        Err(Error { kind: ErrorKind::InvalidUtf8, from: at(3, 1, 4), to: at(3, 1, 4) })
    );
    let parsed = items(b"mov r0,");
    assert_eq!(parsed[0].clone().unwrap_err().kind, ErrorKind::UnexpectedEndOfInput);
}

#[test]
fn positions_count_lines_and_columns_from_one() {
    let mut parser = Parser::new(b"ab\ncd");
    assert_eq!(parser.position(), at(0, 1, 1));
    parser.step();
    assert_eq!(parser.position(), at(1, 1, 2));
    parser.step();
    assert_eq!(parser.position(), at(2, 1, 3));
    parser.step();
    assert_eq!(parser.position(), at(3, 2, 1));
    parser.step();
    parser.step();
    assert_eq!(parser.position(), at(5, 2, 3));
    assert!(parser.done());
}

#[test]
fn every_error_has_a_message() {
    assert_eq!(ErrorKind::InvalidNumber.message(), "invalid i64");
    assert_eq!(ErrorKind::NumberOutOfRange.message(), "number not within i32/u32 bounds");
    assert_eq!(ErrorKind::ByteOutOfRange.message(), "expected u8, got value > 255");
    assert_eq!(
        ErrorKind::DuplicateLabel { first: 0, second: 1 }.message(),
        "labels must be unique"
    );
    let error =
        Error { kind: ErrorKind::UnterminatedString, from: at(0, 1, 1), to: at(0, 1, 1) };
    assert_eq!(error.message(), "unexpected end of string literal");
}

#[test]
fn data_ends_with_the_line_or_the_source() {
    assert_eq!(
        items(b"db 1, 2"),
        vec![
            Ok(InstructionOrLabel::PreprocessorCommand(PreprocessorCommand::DeclareBytes(vec![
                1, 2
            ]))),
            Ok(InstructionOrLabel::EOF),
        ]
    );
    assert_eq!(
        items(b"db \"\" ,, 7 \n\n  hlt"),
        vec![
            Ok(InstructionOrLabel::PreprocessorCommand(PreprocessorCommand::DeclareBytes(vec![7]))),
            Ok(InstructionOrLabel::Instruction(Instruction::Hlt)),
            Ok(InstructionOrLabel::EOF),
        ]
    );
    assert_eq!(items(b"db")[0].clone().unwrap_err().kind, ErrorKind::UnexpectedEndOfInput);
    assert_eq!(items(b"dw")[0].clone().unwrap_err().kind, ErrorKind::UnexpectedEndOfInput);
    assert_eq!(items(b"db \"a\\")[0].clone().unwrap_err().kind, ErrorKind::UnterminatedString);
}

#[test]
fn one_byte_separates_a_data_directive_from_its_values() {
    assert_eq!(
        items(b"dw  5\n")[0],
        Err(Error { kind: ErrorKind::InvalidNumber, from: at(3, 1, 4), to: at(4, 1, 5) })
    );
    assert_eq!(
        items(b"dw\n5\n")[0],
        Ok(InstructionOrLabel::PreprocessorCommand(PreprocessorCommand::DeclareWord(5)))
    );
    assert_eq!(items(b"db\nnop\n")[0].clone().unwrap_err().kind, ErrorKind::InvalidNumber);
}

#[test]
fn comments_and_blank_lines_are_passed() {
    assert_eq!(
        items(b"; first\n\n   ; second\nl: ; third\n\tnop;fourth"),
        vec![
            Ok(InstructionOrLabel::Label(b"l".to_vec())),
            Ok(InstructionOrLabel::Instruction(Instruction::Nop)),
            Ok(InstructionOrLabel::EOF),
        ]
    );
    let mut parser = Parser::new(b"  ; note\n \t x");
    parser.skip_trivia();
    assert_eq!(parser.current(), b'x');
    assert_eq!(parser.offset(), 12);
    assert_eq!(parser.previous(), at(11, 2, 3));
}
