use vc2::encoding::{Register, Selector};
use vc2::vm::alu::Flag;
use vc2::vm::machine::{invalid_architecture_message, Vm};
use vc2::vm::state::VmError;

const R0: Register = Register::GeneralPurpose0;
const R1: Register = Register::GeneralPurpose1;
const FL: Register = Register::Flag;
const PC: Register = Register::ProgramCounter;

fn machine(image: &[u8]) -> Vm {
    Vm::new(image.to_vec(), 0x100)
}

fn after(image: &[u8], r0: u32, r1: u32, flags: u32) -> Vm {
    let mut vm = machine(image);
    vm.set_register_value(&R0, r0);
    vm.set_register_value(&R1, r1);
    vm.set_register_value(&FL, flags);
    assert_eq!(vm.run_next_instruction(), Ok(()));
    vm
}

#[test]
fn a_fresh_machine_holds_the_image_and_zeroes() {
    let vm = Vm::new(vec![0xde, 0xad, 0xbe, 0xef, 0x01], 16);
    assert_eq!(vm.memory_size(), 16);
    assert_eq!(vm.memory_value(&0), Ok(0xdead_beef));
    assert_eq!(vm.memory_value(&4), Ok(0x0100_0000));
    assert_eq!(vm.memory_value(&12), Ok(0));
    for register in [R0, R1, FL, PC] {
        assert_eq!(vm.register_value(&register), 0);
    }
    assert!(!vm.is_halted());
}

#[test]
fn words_are_big_endian_and_bounded() {
    let mut vm = Vm::new(Vec::new(), 8);
    assert_eq!(vm.set_memory_value(&2, 0x1122_3344), Ok(()));
    assert_eq!(vm.memory_value(&0), Ok(0x0000_1122));
    assert_eq!(vm.memory_value(&4), Ok(0x3344_0000));
    assert_eq!(vm.memory_value(&5), Err(VmError::MemoryOutOfRange { address: 5 }));
    assert_eq!(vm.memory_value(&8), Err(VmError::MemoryOutOfRange { address: 8 }));
    assert_eq!(
        vm.memory_value(&0xffff_ffff),
        Err(VmError::MemoryOutOfRange { address: 0xffff_ffff })
    );
}

#[test]
fn a_write_past_the_end_stores_what_fits() {
    let mut vm = Vm::new(Vec::new(), 8);
    assert_eq!(
        vm.set_memory_value(&6, 0xaabb_ccdd),
        Err(VmError::MemoryOutOfRange { address: 6 })
    );
    assert_eq!(vm.memory_value(&4), Ok(0x0000_aabb));
    assert_eq!(
        vm.set_memory_value(&8, 0xaabb_ccdd),
        Err(VmError::MemoryOutOfRange { address: 8 })
    );
    assert_eq!(vm.memory_value(&4), Ok(0x0000_aabb));
}

#[test]
fn registers_read_back() {
    let mut vm = machine(&[]);
    vm.set_register_value(&R0, 1);
    vm.set_register_value(&R1, 2);
    vm.set_register_value(&FL, 3);
    vm.set_register_value(&PC, 4);
    assert_eq!(vm.register_value(&R0), 1);
    assert_eq!(vm.register_value(&R1), 2);
    assert_eq!(vm.register_value(&FL), 3);
    assert_eq!(vm.register_value(&PC), 4);
}

#[test]
fn flags_are_single_bits() {
    assert!(Flag::Overflow.is_active(0b00001));
    assert!(Flag::CarryOrBorrow.is_active(0b00010));
    assert!(Flag::Equal.is_active(0b00100));
    assert!(Flag::Less.is_active(0b01000));
    assert!(Flag::Below.is_active(0b10000));
    assert!(!Flag::Overflow.is_active(0b11110));
    assert!(!Flag::CarryOrBorrow.is_active(0b11101));
    assert!(!Flag::Equal.is_active(0b11011));
    assert!(!Flag::Less.is_active(0b10111));
    assert!(!Flag::Below.is_active(0xffff_ffef));
}

#[test]
fn nop_only_moves_on() {
    let mut vm = machine(&[0x00, 0x00]);
    assert_eq!(vm.run_next_instruction(), Ok(()));
    assert_eq!(vm.register_value(&PC), 1);
    assert_eq!(vm.register_value(&R0), 0);
}

#[test]
fn hlt_halts_until_the_program_counter_changes() {
    let mut vm = machine(&[0x01, 0x02, 0x10, 0, 0, 0, 9, 0x01]);
    assert_eq!(vm.run_next_instruction(), Ok(()));
    assert_eq!(vm.register_value(&PC), 1);
    assert!(vm.is_halted());
    assert_eq!(vm.run_next_instruction(), Ok(()));
    assert_eq!(vm.run_next_instruction(), Ok(()));
    assert_eq!(vm.register_value(&PC), 1);
    assert_eq!(vm.register_value(&R0), 0);
    vm.set_register_value(&PC, 7);
    assert!(!vm.is_halted());
    vm.set_register_value(&PC, 1);
    assert!(vm.is_halted());
    vm.set_register_value(&PC, 7);
    assert_eq!(vm.run_next_instruction(), Ok(()));
    assert_eq!(vm.register_value(&PC), 8);
    assert!(vm.is_halted());
    vm.set_register_value(&PC, 1);
    assert!(!vm.is_halted());
    assert_eq!(vm.run_next_instruction(), Ok(()));
    assert_eq!(vm.register_value(&R0), 9);
    assert_eq!(vm.register_value(&PC), 7);
}

#[test]
fn a_program_counter_outside_memory_is_out_of_instructions() {
    let mut vm = Vm::new(vec![0x00], 1);
    assert_eq!(vm.run_next_instruction(), Ok(()));
    assert_eq!(vm.run_next_instruction(), Err(VmError::OutOfInstructions));
    assert_eq!(vm.register_value(&PC), 1);
    let mut vm = Vm::new(vec![0x01], 1);
    assert_eq!(vm.run_next_instruction(), Ok(()));
    assert_eq!(vm.run_next_instruction(), Err(VmError::OutOfInstructions));
}

#[test]
fn decode_errors_leave_the_program_counter_at_the_byte_to_blame() {
    let mut vm = machine(&[0x00, 0x14]);
    assert_eq!(vm.run_next_instruction(), Ok(()));
    assert_eq!(vm.run_next_instruction(), Err(VmError::UnknownInstruction(0x14)));
    assert_eq!(vm.register_value(&PC), 1);
    assert_eq!(vm.run_next_instruction(), Err(VmError::UnknownInstruction(0x14)));

    let mut vm = machine(&[0x02, 0b1010_0001]);
    assert_eq!(
        vm.run_next_instruction(),
        Err(VmError::InvalidCombination {
            destination: Selector::RegisterAddress,
            source: Selector::RegisterAddress
        })
    );
    assert_eq!(vm.register_value(&PC), 1);

    let mut vm = machine(&[0x09, 0b0110_0000]);
    assert_eq!(
        vm.run_next_instruction(),
        Err(VmError::InvalidCombination {
            destination: Selector::Immediate,
            source: Selector::RegisterAddress
        })
    );

    let mut vm = machine(&[0x06, 0x40]);
    assert_eq!(vm.run_next_instruction(), Err(VmError::NotImmediate));
    assert_eq!(vm.register_value(&PC), 1);

    let mut vm = Vm::new(vec![0x02], 1);
    assert_eq!(vm.run_next_instruction(), Err(VmError::MissingByte { index: 1 }));
    assert_eq!(vm.register_value(&PC), 1);

    let mut vm = Vm::new(vec![0x02, 0x10, 0, 0], 4);
    assert_eq!(vm.run_next_instruction(), Err(VmError::MissingByte { index: 4 }));
    assert_eq!(vm.register_value(&PC), 4);
    assert_eq!(vm.register_value(&R0), 0);
}

#[test]
fn mov_in_every_shape() {
    let vm = after(&[0x02, 0x10, 0x12, 0x34, 0x56, 0x78], 0, 0, 0);
    assert_eq!(vm.register_value(&R0), 0x1234_5678);
    assert_eq!(vm.register_value(&PC), 6);

    let vm = after(&[0x02, 0x01], 1, 2, 0);
    assert_eq!(vm.register_value(&R0), 2);
    assert_eq!(vm.register_value(&PC), 2);

    let vm = after(&[0x02, 0x21, 0, 0, 0xca, 0xfe, 0xba, 0xbe], 0, 4, 0);
    assert_eq!(vm.register_value(&R0), 0xcafe_babe);

    let vm = after(&[0x02, 0x30, 0, 0, 0, 8, 0, 0, 0, 0, 0, 42], 0, 0, 0);
    assert_eq!(vm.register_value(&R0), 42);

    let vm = after(&[0x02, 0x81], 0x10, 0xaabb_ccdd, 0);
    assert_eq!(vm.memory_value(&0x10), Ok(0xaabb_ccdd));

    let vm = after(&[0x02, 0x90, 0, 0, 0, 7], 0x20, 0, 0);
    assert_eq!(vm.memory_value(&0x20), Ok(7));

    let vm = after(&[0x02, 0xc1, 0, 0, 0, 0x30], 0, 0x55, 0);
    assert_eq!(vm.memory_value(&0x30), Ok(0x55));

    let vm = after(&[0x02, 0xd0, 0, 0, 0, 0x40, 0xde, 0xad, 0xbe, 0xef], 0, 0, 0);
    assert_eq!(vm.memory_value(&0x40), Ok(0xdead_beef));
    assert_eq!(vm.register_value(&PC), 10);

    let vm = after(&[0x02, 0x50, 0, 0, 0, 1, 0, 0, 0, 2], 3, 4, 5);
    assert_eq!(vm.register_value(&R0), 3);
    assert_eq!(vm.register_value(&R1), 4);
    assert_eq!(vm.register_value(&FL), 5);
    assert_eq!(vm.register_value(&PC), 10);

    let vm = after(&[0x02, 0x0c, 0x00], 0, 1, 0);
    assert_eq!(vm.register_value(&PC), 0);
}

#[test]
fn memory_errors_change_nothing_but_the_program_counter() {
    let mut vm = machine(&[0x02, 0x81]);
    vm.set_register_value(&R0, 0xfd);
    vm.set_register_value(&R1, 0xffff_ffff);
    assert_eq!(vm.run_next_instruction(), Err(VmError::MemoryOutOfRange { address: 0xfd }));
    assert_eq!(vm.register_value(&PC), 2);
    assert_eq!(vm.memory_value(&0xfc), Ok(0));
    let mut vm = machine(&[0x02, 0x30, 0, 0, 1, 0]);
    assert_eq!(vm.run_next_instruction(), Err(VmError::MemoryOutOfRange { address: 0x100 }));
    assert_eq!(vm.register_value(&R0), 0);
}

#[test]
fn not_complements() {
    let vm = after(&[0x06, 0x00], 0x0f0f_0f0f, 0, 0);
    assert_eq!(vm.register_value(&R0), 0xf0f0_f0f0);
    let vm = after(&[0x06, 0x84], 0, 0x10, 0);
    assert_eq!(vm.memory_value(&0x10), Ok(0xffff_ffff));
    let vm = after(&[0x06, 0xc0, 0, 0, 0, 0x20], 0, 0, 0);
    assert_eq!(vm.memory_value(&0x20), Ok(0xffff_ffff));
    assert_eq!(vm.register_value(&PC), 6);
}

#[test]
fn not_twice_restores() {
    let mut vm = machine(&[0x06, 0x84, 0x06, 0x84]);
    vm.set_register_value(&R1, 0x10);
    vm.set_memory_value(&0x10, 0x1234_5678).unwrap();
    assert_eq!(vm.run_next_instruction(), Ok(()));
    assert_eq!(vm.memory_value(&0x10), Ok(0xedcb_a987));
    assert_eq!(vm.run_next_instruction(), Ok(()));
    assert_eq!(vm.memory_value(&0x10), Ok(0x1234_5678));
}

#[test]
fn bitwise_and_shifts() {
    assert_eq!(after(&[0x03, 0x01], 0b1100, 0b1010, 0).register_value(&R0), 0b1110);
    assert_eq!(after(&[0x04, 0x01], 0b1100, 0b1010, 0).register_value(&R0), 0b1000);
    assert_eq!(after(&[0x05, 0x01], 0b1100, 0b1010, 0).register_value(&R0), 0b0110);
    assert_eq!(after(&[0x07, 0x01], 0x8000_0001, 4, 0).register_value(&R0), 0x10);
    assert_eq!(after(&[0x08, 0x01], 0x8000_0001, 4, 0).register_value(&R0), 0x0800_0000);
    assert_eq!(after(&[0x07, 0x01], 3, 32, 0).register_value(&R0), 3);
    assert_eq!(after(&[0x07, 0x01], 3, 33, 0).register_value(&R0), 6);
    assert_eq!(after(&[0x08, 0x01], 8, 0xffff_ffe1, 0).register_value(&R0), 4);
}

#[test]
fn products_keep_the_low_word() {
    assert_eq!(after(&[0x0b, 0x01], 6, 7, 0).register_value(&R0), 42);
    assert_eq!(after(&[0x0b, 0x01], 0x1_0000, 0x1_0000, 0).register_value(&R0), 0);
    assert_eq!(after(&[0x0b, 0x01], 0xffff_ffff, 2, 0).register_value(&R0), 0xffff_fffe);
    assert_eq!(after(&[0x0c, 0x01], 0xffff_ffff, 0xffff_ffff, 0).register_value(&R0), 1);
    assert_eq!(after(&[0x0c, 0x01], 0xffff_fffe, 3, 0).register_value(&R0), 0xffff_fffa);
    assert_eq!(after(&[0x0c, 0x01], 0x8000_0000, 2, 0).register_value(&R0), 0);
}

#[test]
fn quotients_and_remainders() {
    assert_eq!(after(&[0x0d, 0x01], 7, 2, 0).register_value(&R0), 3);
    assert_eq!(after(&[0x0d, 0x01], 0xffff_ffff, 2, 0).register_value(&R0), 0x7fff_ffff);
    assert_eq!(after(&[0x0f, 0x01], 7, 2, 0).register_value(&R0), 1);
    assert_eq!(after(&[0x0f, 0x01], 0xffff_ffff, 16, 0).register_value(&R0), 15);
    assert_eq!(after(&[0x0e, 0x01], 7, 2, 0).register_value(&R0), 3);
    assert_eq!(after(&[0x0e, 0x01], 0xffff_fff9, 2, 0).register_value(&R0), 0xffff_fffd);
    assert_eq!(after(&[0x0e, 0x01], 7, 0xffff_fffe, 0).register_value(&R0), 0xffff_fffd);
    assert_eq!(after(&[0x0e, 0x01], 0xffff_fff9, 0xffff_fffe, 0).register_value(&R0), 3);
    assert_eq!(after(&[0x0e, 0x01], 0x8000_0000, 0xffff_ffff, 0).register_value(&R0), 0x8000_0000);
}

#[test]
fn a_zero_divisor_is_an_error() {
    for opcode in [0x0d, 0x0e, 0x0f] {
        let mut vm = machine(&[opcode, 0x01]);
        vm.set_register_value(&R0, 7);
        assert_eq!(vm.run_next_instruction(), Err(VmError::DivisionByZero));
        assert_eq!(vm.register_value(&R0), 7);
        assert_eq!(vm.register_value(&PC), 2);
    }
}

#[test]
fn add_reads_and_writes_the_carry() {
    let vm = after(&[0x09, 0x01], 5, 7, 0);
    assert_eq!(vm.register_value(&R0), 12);
    assert_eq!(vm.register_value(&FL), 0);

    let vm = after(&[0x09, 0x01], 5, 7, 0b10);
    assert_eq!(vm.register_value(&R0), 13);
    assert_eq!(vm.register_value(&FL), 0);

    let vm = after(&[0x09, 0x01], 0x7fff_ffff, 1, 0b1_1101);
    assert_eq!(vm.register_value(&R0), 0x8000_0000);
    assert_eq!(vm.register_value(&FL), 0b1_1111);

    let vm = after(&[0x09, 0x01], 0xffff_ffff, 1, 0xffff_ffff);
    assert_eq!(vm.register_value(&R0), 1);
    assert_eq!(vm.register_value(&FL), 0xffff_fffd);

    let vm = after(&[0x09, 0x01], 0, 0xffff_ffff, 0);
    assert_eq!(vm.register_value(&R0), 0xffff_ffff);
    assert_eq!(vm.register_value(&FL), 0b10);

    let vm = after(&[0x09, 0x01], 5, 0xffff_ffff, 0b10);
    assert_eq!(vm.register_value(&R0), 5);
    assert_eq!(vm.register_value(&FL), 0b10);
}

#[test]
fn add_zero_changes_nothing() {
    let vm = after(&[0x09, 0x10, 0, 0, 0, 0], 0xdead_beef, 0, 0b1_1101);
    assert_eq!(vm.register_value(&R0), 0xdead_beef);
    assert_eq!(vm.register_value(&FL), 0b1_1101);
}

#[test]
fn sub_reads_and_writes_the_borrow() {
    let vm = after(&[0x0a, 0x01], 12, 7, 0);
    assert_eq!(vm.register_value(&R0), 5);
    assert_eq!(vm.register_value(&FL), 0);

    let vm = after(&[0x0a, 0x01], 12, 7, 0b10);
    assert_eq!(vm.register_value(&R0), 4);
    assert_eq!(vm.register_value(&FL), 0);

    let vm = after(&[0x0a, 0x01], 0, 1, 0b100);
    assert_eq!(vm.register_value(&R0), 0xffff_ffff);
    assert_eq!(vm.register_value(&FL), 0b100);

    let vm = after(&[0x0a, 0x01], 0x8000_0000, 1, 0b100);
    assert_eq!(vm.register_value(&R0), 0x7fff_ffff);
    assert_eq!(vm.register_value(&FL), 0b110);
}

#[test]
fn cmp_overwrites_the_flags_and_keeps_the_destination() {
    let vm = after(&[0x10, 0x01], 3, 3, 0xffff_ffff);
    assert_eq!(vm.register_value(&FL), 0b00100);
    assert_eq!(vm.register_value(&R0), 3);
    let vm = after(&[0x10, 0x01], 1, 2, 0);
    assert_eq!(vm.register_value(&FL), 0b11000);
    let vm = after(&[0x10, 0x01], 0xffff_ffff, 1, 0b11);
    assert_eq!(vm.register_value(&FL), 0b01000);
    let vm = after(&[0x10, 0x01], 1, 0xffff_ffff, 0);
    assert_eq!(vm.register_value(&FL), 0b10000);
    let vm = after(&[0x10, 0x01], 2, 1, 0xff);
    assert_eq!(vm.register_value(&FL), 0);
    let vm = after(&[0x10, 0x00], 9, 0, 0);
    assert_eq!(vm.register_value(&FL), 0b00100);
    let vm = after(&[0x10, 0x50, 0, 0, 0, 1, 0, 0, 0, 2], 0, 0, 0);
    assert_eq!(vm.register_value(&FL), 0b11000);
}

#[test]
fn the_flag_register_is_written_last() {
    let vm = after(&[0x09, 0x09], 0, 3, 0b100);
    assert_eq!(vm.register_value(&FL), 0b100);
    let vm = after(&[0x02, 0x09], 0, 3, 0b100);
    assert_eq!(vm.register_value(&FL), 3);
}

#[test]
fn mov_to_itself_keeps_the_value() {
    let mut vm = machine(&[0x02, 0x01, 0x02, 0x00]);
    vm.set_register_value(&R1, 77);
    assert_eq!(vm.run_next_instruction(), Ok(()));
    assert_eq!(vm.register_value(&R0), 77);
    assert_eq!(vm.run_next_instruction(), Ok(()));
    assert_eq!(vm.register_value(&R0), 77);
}

#[test]
fn jmp_absolute_and_relative() {
    let vm = after(&[0x11, 0x41, 0, 0, 0, 0x20], 0, 0, 0);
    assert_eq!(vm.register_value(&PC), 0x20);
    let vm = after(&[0x11, 0x40, 0, 0, 0, 0x20], 0, 0, 0);
    assert_eq!(vm.register_value(&PC), 0x20);

    let mut vm = machine(&[0x00, 0x00, 0x11, 0x40, 0, 0, 0, 0x20]);
    vm.set_register_value(&PC, 2);
    assert_eq!(vm.run_next_instruction(), Ok(()));
    assert_eq!(vm.register_value(&PC), 0x22);

    let mut vm = machine(&[0x00, 0x00, 0x11, 0x40, 0xff, 0xff, 0xff, 0xfe]);
    vm.set_register_value(&PC, 2);
    assert_eq!(vm.run_next_instruction(), Ok(()));
    assert_eq!(vm.register_value(&PC), 0);

    let mut vm = machine(&[0x00, 0x00, 0x11, 0x05]);
    vm.set_register_value(&PC, 2);
    vm.set_register_value(&R1, 0x44);
    assert_eq!(vm.run_next_instruction(), Ok(()));
    assert_eq!(vm.register_value(&PC), 0x44);

    let mut vm = machine(&[0x00, 0x00, 0x11, 0x84, 0, 0, 0, 0, 0, 0, 0, 6]);
    vm.set_register_value(&PC, 2);
    vm.set_register_value(&R1, 8);
    assert_eq!(vm.run_next_instruction(), Ok(()));
    assert_eq!(vm.register_value(&PC), 8);
}

#[test]
fn conditional_jumps_are_absolute() {
    let vm = after(&[0x12, 0x01], 0x30, 0, 0);
    assert_eq!(vm.register_value(&PC), 0x30);
    let vm = after(&[0x12, 0x01], 0x30, 1, 0);
    assert_eq!(vm.register_value(&PC), 2);
    let vm = after(&[0x13, 0x01], 0x30, 1, 0);
    assert_eq!(vm.register_value(&PC), 0x30);
    let vm = after(&[0x13, 0x01], 0x30, 0, 0);
    assert_eq!(vm.register_value(&PC), 2);
    let vm = after(&[0x13, 0x42, 0, 0, 0, 0x50], 0, 0, 0b100);
    assert_eq!(vm.register_value(&PC), 0x50);
    let vm = after(&[0x12, 0x60, 0, 0, 0, 0x50], 0x10, 0, 0);
    assert_eq!(vm.register_value(&PC), 0x50);
    let vm = after(&[0x12, 0x70, 0, 0, 0, 0x50, 0, 0, 0, 0x60], 0, 0, 0);
    assert_eq!(vm.register_value(&PC), 0x50);
}

#[test]
fn run_stops_at_a_halt_an_error_or_the_limit() {
    let mut vm = machine(&[0x00, 0x00, 0x01, 0x00]);
    assert_eq!(vm.run(100), (3, Ok(())));
    assert!(vm.is_halted());
    assert_eq!(vm.run(100), (0, Ok(())));

    let mut vm = machine(&[0x00, 0x00, 0x01]);
    assert_eq!(vm.run(2), (2, Ok(())));
    assert!(!vm.is_halted());
    assert_eq!(vm.register_value(&PC), 2);

    let mut vm = machine(&[0x00, 0xff]);
    assert_eq!(vm.run(100), (1, Err(VmError::UnknownInstruction(0xff))));

    let mut vm = Vm::new(vec![0x00, 0x00], 2);
    assert_eq!(vm.run(100), (2, Err(VmError::OutOfInstructions)));
}

#[test]
fn every_failure_has_a_message() {
    assert_eq!(VmError::OutOfInstructions.message(), "out of instructions");
    assert_eq!(VmError::MissingByte { index: 3 }.message(), "cannot get current byte");
    assert_eq!(VmError::UnknownInstruction(0x14).message(), "unrecognized instruction");
    assert_eq!(
        VmError::InvalidCombination {
            destination: Selector::Immediate,
            source: Selector::RegisterAddress
        }
        .message(),
        "invalid selector/destination combo"
    );
    assert_eq!(
        VmError::NotImmediate.message(),
        "invalid selector 'immediate' for not instruction"
    );
    assert_eq!(VmError::MemoryOutOfRange { address: 1 }.message(), "cannot get memory word");
    assert_eq!(VmError::DivisionByZero.message(), "division by zero");
}

#[test]
fn the_architecture_message() {
    assert_eq!(invalid_architecture_message(), "architecture should support 32 bit word pointers");
}
