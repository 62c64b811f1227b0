use vc2::assemble;
use vc2::assembler::model::AssembleError;
use vc2::encoding::Register;
use vc2::error::{Error, ErrorKind, Position};
use vc2::instructions::{
    Instruction, InstructionOrLabel, JmpVariant, PreprocessorCommand, Target,
};
use vc2::Assembler;

fn error(
    kind: ErrorKind,
    from: (usize, usize, usize),
    to: (usize, usize, usize),
) -> Result<Vec<u8>, Vec<Error>> {
    Err(vec![Error {
        kind,
        from: Position { cursor: from.0, line: from.1, character: from.2 },
        to: Position { cursor: to.0, line: to.1, character: to.2 },
    }])
}

fn r0() -> Target {
    Target::Register(Register::GeneralPurpose0)
}

fn r1() -> Target {
    Target::Register(Register::GeneralPurpose1)
}

fn instruction(instruction: Instruction) -> InstructionOrLabel {
    InstructionOrLabel::Instruction(instruction)
}

fn assembled(items: &[InstructionOrLabel]) -> Result<Vec<u8>, AssembleError> {
    Assembler::new(items).assemble()
}

#[test]
fn instructions_without_operands_are_one_byte() {
    assert_eq!(assemble(b"nop\nhlt\n"), Ok(vec![0x00, 0x01]));
    assert_eq!(assemble(b""), Ok(vec![]));
}

#[test]
fn two_operands_make_a_packet_and_immediates() {
    assert_eq!(assemble(b"mov r0, 5"), Ok(vec![0x02, 0x10, 0, 0, 0, 5]));
    assert_eq!(assemble(b"mov r1, 7"), Ok(vec![0x02, 0x14, 0, 0, 0, 7]));
    assert_eq!(assemble(b"add r0, r1"), Ok(vec![0x09, 0x01]));
    assert_eq!(assemble(b"sub pc, fl"), Ok(vec![0x0a, 0x0e]));
    assert_eq!(assemble(b"mov [r1], [pc]"), Ok(vec![0x02, 0xa7]));
    assert_eq!(
        assemble(b"mov [0x1000], 0xDEADBEEF"),
        Ok(vec![0x02, 0xd0, 0, 0, 0x10, 0, 0xde, 0xad, 0xbe, 0xef])
    );
    assert_eq!(
        assemble(b"xor [0x10], [0x20]"),
        Ok(vec![0x05, 0xf0, 0, 0, 0, 0x10, 0, 0, 0, 0x20])
    );
    assert_eq!(assemble(b"cmp r0, 3"), Ok(vec![0x10, 0x10, 0, 0, 0, 3]));
}

#[test]
fn every_two_operand_opcode() {
    let table: [(&[u8], u8); 16] = [
        (b"mov r0, r1", 0x02),
        (b"or r0, r1", 0x03),
        (b"and r0, r1", 0x04),
        (b"xor r0, r1", 0x05),
        (b"shl r0, r1", 0x07),
        (b"shr r0, r1", 0x08),
        (b"add r0, r1", 0x09),
        (b"sub r0, r1", 0x0a),
        (b"mul r0, r1", 0x0b),
        (b"imul r0, r1", 0x0c),
        (b"div r0, r1", 0x0d),
        (b"idiv r0, r1", 0x0e),
        (b"rem r0, r1", 0x0f),
        (b"cmp r0, r1", 0x10),
        (b"jz r0, r1", 0x12),
        (b"jnz r0, r1", 0x13),
    ];
    for (source, opcode) in table {
        assert_eq!(assemble(source), Ok(vec![opcode, 0x01]));
    }
}

#[test]
fn not_and_jmp_have_one_operand() {
    assert_eq!(assemble(b"not r1"), Ok(vec![0x06, 0x04]));
    assert_eq!(assemble(b"not [r1]"), Ok(vec![0x06, 0x84]));
    assert_eq!(assemble(b"not [0x20]"), Ok(vec![0x06, 0xc0, 0, 0, 0, 0x20]));
    assert_eq!(assemble(b"jmp 0x10"), Ok(vec![0x11, 0x40, 0, 0, 0, 0x10]));
    assert_eq!(assemble(b"jmpabs 0x10"), Ok(vec![0x11, 0x41, 0, 0, 0, 0x10]));
    assert_eq!(assemble(b"jmpabs r1"), Ok(vec![0x11, 0x05]));
    assert_eq!(assemble(b"jmp [fl]"), Ok(vec![0x11, 0x88]));
    assert_eq!(assemble(b"jmpabs [0x30]"), Ok(vec![0x11, 0xc1, 0, 0, 0, 0x30]));
}

#[test]
fn not_of_a_value_is_refused() {
    assert_eq!(assemble(b"nop\nnot 5"), error(ErrorKind::InvalidNotTarget, (4, 2, 1), (8, 2, 5)));
    assert_eq!(assemble(b"x:\nnot x"), error(ErrorKind::InvalidNotTarget, (3, 2, 1), (7, 2, 5)));
}

#[test]
fn data_directives() {
    assert_eq!(assemble(b"db 1, 2, 3\n"), Ok(vec![1, 2, 3]));
    assert_eq!(assemble(b"db \"AB\" 0x43\n"), Ok(vec![0x41, 0x42, 0x43]));
    assert_eq!(assemble(b"dw 0x41424344\n"), Ok(vec![0x41, 0x42, 0x43, 0x44]));
    assert_eq!(assemble(b"%offset 3\nhlt"), Ok(vec![0, 0, 0, 1]));
    assert_eq!(assemble(b"hlt\n%offset_word 2\nhlt"), Ok(vec![1, 0, 0, 0, 0, 0, 0, 0, 0, 1]));
}

#[test]
fn labels_are_relative_unless_asked_for_absolute() {
    assert_eq!(
        assemble(b"nop\nnop\njmp end\nnop\nend: hlt"),
        Ok(vec![0, 0, 0x11, 0x40, 0, 0, 0, 7, 0, 1])
    );
    assert_eq!(
        assemble(b"nop\nnop\njmpabs abs_end\nnop\nend: hlt"),
        Ok(vec![0, 0, 0x11, 0x41, 0, 0, 0, 9, 0, 1])
    );
    assert_eq!(
        assemble(b"nop\nstart: nop\nnop\nnop\njmp start"),
        Ok(vec![0, 0, 0, 0, 0x11, 0x40, 0xff, 0xff, 0xff, 0xfd])
    );
    assert_eq!(
        assemble(b"nop\nnop\nmov [abs_slot], slot\nslot: dw 0"),
        Ok(vec![0, 0, 0x02, 0xd0, 0, 0, 0, 12, 0, 0, 0, 10, 0, 0, 0, 0])
    );
}

#[test]
fn constants_are_their_value_wherever_they_are_used() {
    assert_eq!(
        assemble(b"%define K 0xAA\nnop\nmov r0, K\nmov r0, abs_K\nmov [K], r1"),
        Ok(vec![
            0, 0x02, 0x10, 0, 0, 0, 0xaa, 0x02, 0x10, 0, 0, 0, 0xaa, 0x02, 0xc1, 0, 0, 0, 0xaa
        ])
    );
    assert_eq!(assemble(b"nop\nmov r0, K\n%define K 7"), Ok(vec![0, 0x02, 0x10, 0, 0, 0, 7]));
    assert_eq!(
        assemble(b"%define K 0xAA\nnop\nmov r0, K"),
        assemble(b"%define K 0xAA\nnop\nmov r0, 0xAA")
    );
}

#[test]
fn sub_names_live_under_the_latest_label() {
    assert_eq!(
        assemble(b"f:\nnop\n.a: nop\njmp .a\ng:\n.a: jmp .a\njmp f@a"),
        Ok(vec![
            0, 0, 0x11, 0x40, 0xff, 0xff, 0xff, 0xff, 0x11, 0x40, 0, 0, 0, 0, 0x11, 0x40, 0xff,
            0xff, 0xff, 0xf3
        ])
    );
    assert_eq!(
        assemble(b"f:\n%define .k 5\nmov r0, .k\ng:\n%define .k 6\nmov r0, .k"),
        Ok(vec![0x02, 0x10, 0, 0, 0, 5, 0x02, 0x10, 0, 0, 0, 6])
    );
}

#[test]
fn names_must_be_unique() {
    assert_eq!(
        assemble(b"l:\nnop\nl:\n"),
        error(ErrorKind::DuplicateLabel { first: 0, second: 1 }, (7, 3, 1), (8, 3, 2))
    );
    assert_eq!(assemble(b"l:\nl:\n"), Ok(vec![]));
    assert_eq!(
        assemble(b"%define K 1\n%define K 2\n"),
        error(ErrorKind::DuplicateConstant { first: 1, second: 2 }, (12, 2, 1), (22, 2, 11))
    );
    assert_eq!(assemble(b"%define K 1\n%define K 1\n"), Ok(vec![]));
    assert_eq!(
        assemble(b"%define K 9\nnop\nK:\n"),
        error(ErrorKind::LabelIsConstant { value: 9 }, (16, 3, 1), (17, 3, 2))
    );
    assert_eq!(
        assemble(b"nop\nK:\n  %define K 9\n"),
        error(ErrorKind::ConstantIsLabel { position: 1 }, (9, 3, 3), (19, 3, 13))
    );
}

#[test]
fn sub_names_need_a_label() {
    assert_eq!(assemble(b".a:\n"), error(ErrorKind::SubLabelWithoutLabel, (0, 1, 1), (2, 1, 3)));
    assert_eq!(
        assemble(b"%define .k 1\n"),
        error(ErrorKind::SubConstantWithoutLabel, (0, 1, 1), (11, 1, 12))
    );
    assert_eq!(
        assemble(b"\nmov r0, .k\n"),
        error(ErrorKind::SubConstantWithoutLabel, (1, 2, 1), (10, 2, 10))
    );
    assert_eq!(
        assemble(b"jmp .k ; far\n"),
        error(ErrorKind::SubConstantWithoutLabel, (0, 1, 1), (12, 1, 13))
    );
}

#[test]
fn an_unknown_name_is_an_error() {
    assert_eq!(
        assemble(b"nop\n  jmp nowhere\n"),
        error(ErrorKind::UnresolvedSymbol, (6, 2, 3), (16, 2, 13))
    );
    assert_eq!(
        assemble(b"abs_x:\njmp abs_x\n"),
        error(ErrorKind::UnresolvedSymbol, (7, 2, 1), (15, 2, 9))
    );
}

#[test]
fn parse_errors_are_all_reported() {
    let errors = assemble(b"mov r0 r1\nfoo\nmov r0, 99999999999\nhlt\n").unwrap_err();
    assert_eq!(errors.len(), 3);
    assert_eq!(errors[0].kind, ErrorKind::ExpectedComma(b'r'));
    assert_eq!(errors[1].kind, ErrorKind::UnknownMnemonic(b'\n'));
    assert_eq!(errors[2].kind, ErrorKind::NumberOutOfRange);
    assert_eq!(errors[2].from, Position { cursor: 22, line: 3, character: 9 });
    assert_eq!(errors[2].to, Position { cursor: 32, line: 3, character: 19 });
}

#[test]
fn items_assemble_without_a_source() {
    let items = vec![
        InstructionOrLabel::Label(b"top".to_vec()),
        instruction(Instruction::Mov(r0(), Target::Constant(b"abs_data".to_vec()))),
        instruction(Instruction::Jmp(Target::Constant(b"top".to_vec()), JmpVariant::Relative)),
        InstructionOrLabel::Label(b"data".to_vec()),
        InstructionOrLabel::PreprocessorCommand(PreprocessorCommand::DeclareBytes(vec![9, 8])),
        InstructionOrLabel::EOF,
        instruction(Instruction::Hlt),
    ];
    assert_eq!(
        assembled(&items),
        Ok(vec![0x02, 0x10, 0, 0, 0, 12, 0x11, 0x40, 0xff, 0xff, 0xff, 0xfa, 9, 8])
    );
    assert_eq!(assembled(&[]), Ok(vec![]));
    assert_eq!(assembled(&[instruction(Instruction::Add(r0(), r1()))]), Ok(vec![0x09, 0x01]));
}

#[test]
fn item_errors_name_the_item() {
    let items = vec![
        instruction(Instruction::Nop),
        instruction(Instruction::Jmp(Target::Constant(b"gone".to_vec()), JmpVariant::Absolute)),
    ];
    assert_eq!(
        assembled(&items),
        Err(AssembleError { kind: ErrorKind::UnresolvedSymbol, token: 1 })
    );
    let items = vec![
        InstructionOrLabel::Label(b"a".to_vec()),
        instruction(Instruction::Nop),
        instruction(Instruction::Nop),
        InstructionOrLabel::Label(b"a".to_vec()),
    ];
    assert_eq!(
        assembled(&items),
        Err(AssembleError { kind: ErrorKind::DuplicateLabel { first: 0, second: 2 }, token: 3 })
    );
    let items = vec![instruction(Instruction::Not(Target::Immediate(1)))];
    assert_eq!(
        assembled(&items),
        Err(AssembleError { kind: ErrorKind::InvalidNotTarget, token: 0 })
    );
}

#[test]
fn the_cursor_can_pass_an_item() {
    let items = vec![
        instruction(Instruction::Nop),
        instruction(Instruction::Hlt),
        instruction(Instruction::Add(r0(), r1())),
    ];
    let mut assembler = Assembler::new(&items);
    assert_eq!(assembler.current(), &items[0]);
    assembler.step();
    assert_eq!(assembler.current(), &items[1]);
    assert_eq!(assembler.assemble(), Ok(vec![0x01, 0x09, 0x01]));
}
