use vc2::encoding::{make_packet, split_packet, FieldError, Register, Selector};
use vc2::vm::named_instruction::NamedInstruction;
use vc2::word::{from_be_bytes, to_be_bytes};

#[test]
fn registers_and_selectors_take_two_bits() {
    assert_eq!(Register::try_from(0b00), Ok(Register::GeneralPurpose0));
    assert_eq!(Register::try_from(0b01), Ok(Register::GeneralPurpose1));
    assert_eq!(Register::try_from(0b10), Ok(Register::Flag));
    assert_eq!(Register::try_from(0b11), Ok(Register::ProgramCounter));
    assert_eq!(Register::try_from(4), Err(FieldError::InvalidRegister(4)));
    assert_eq!(Selector::try_from(0b00), Ok(Selector::Register));
    assert_eq!(Selector::try_from(0b01), Ok(Selector::Immediate));
    assert_eq!(Selector::try_from(0b10), Ok(Selector::RegisterAddress));
    assert_eq!(Selector::try_from(0b11), Ok(Selector::ImmediateAddress));
    assert_eq!(Selector::try_from(255), Err(FieldError::InvalidSelector(255)));
    assert_eq!(Register::Flag.index(), 0b10);
    assert_eq!(Selector::ImmediateAddress.index(), 0b11);
    assert_eq!(Register::from_bits(3), Register::ProgramCounter);
    assert_eq!(Selector::from_bits(2), Selector::RegisterAddress);
}

#[test]
fn the_packet_is_ddssrrrr() {
    assert_eq!(make_packet(0b11, 0b01, 0b10, 0b01), 0b1101_1001);
    assert_eq!(make_packet(0, 0, 0, 0), 0);
    let fields = split_packet(0b1001_1110);
    assert_eq!(fields.destination_selector, Selector::RegisterAddress);
    assert_eq!(fields.source_selector, Selector::Immediate);
    assert_eq!(fields.destination, Register::ProgramCounter);
    assert_eq!(fields.source, Register::Flag);
}

#[test]
fn the_opcode_table() {
    let table = [
        (0x00, NamedInstruction::Nop),
        (0x01, NamedInstruction::Hlt),
        (0x02, NamedInstruction::Mov),
        (0x03, NamedInstruction::Or),
        (0x04, NamedInstruction::And),
        (0x05, NamedInstruction::Xor),
        (0x06, NamedInstruction::Not),
        (0x07, NamedInstruction::Shl),
        (0x08, NamedInstruction::Shr),
        (0x09, NamedInstruction::Add),
        (0x0a, NamedInstruction::Sub),
        (0x0b, NamedInstruction::Mul),
        (0x0c, NamedInstruction::IMul),
        (0x0d, NamedInstruction::Div),
        (0x0e, NamedInstruction::IDiv),
        (0x0f, NamedInstruction::Rem),
        (0x10, NamedInstruction::Cmp),
        (0x11, NamedInstruction::Jmp),
        (0x12, NamedInstruction::Jz),
        (0x13, NamedInstruction::Jnz),
    ];
    for (byte, named) in table {
        assert_eq!(NamedInstruction::try_from(byte), Ok(named));
        assert_eq!(named.byte(), byte);
    }
    assert_eq!(NamedInstruction::try_from(0x14), Err(0x14));
    assert_eq!(NamedInstruction::try_from(0xff), Err(0xff));
}

#[test]
fn words_are_big_endian() {
    assert_eq!(to_be_bytes(0xdead_beef), [0xde, 0xad, 0xbe, 0xef]);
    assert_eq!(to_be_bytes(1), [0, 0, 0, 1]);
    assert_eq!(from_be_bytes(0xde, 0xad, 0xbe, 0xef), 0xdead_beef);
    assert_eq!(from_be_bytes(0, 0, 1, 0), 256);
}
