use vc2::assemble;
use vc2::encoding::Register;
use vc2::vm::machine::Vm;
use vc2::vm::state::VmError;

const MEMORY: usize = 0x30000;

fn run(source: &[u8]) -> (Vm, Result<(), VmError>) {
    let image = assemble(source).unwrap();
    assert!(image.len() <= MEMORY);
    let mut vm = Vm::new(image, MEMORY);
    let (_, result) = vm.run(10_000);
    (vm, result)
}

#[test]
fn arithmetic() {
    let source = b"mov r0, 5\nmov r1, 7\nadd r0, r1\nhlt";
    assert_eq!(
        assemble(source),
        Ok(vec![0x02, 0x10, 0, 0, 0, 5, 0x02, 0x14, 0, 0, 0, 7, 0x09, 0x01, 0x01])
    );
    let (vm, result) = run(source);
    assert_eq!(result, Ok(()));
    assert!(vm.is_halted());
    assert_eq!(vm.register_value(&Register::GeneralPurpose0), 12);
    assert_eq!(vm.register_value(&Register::GeneralPurpose1), 7);
    assert_eq!(vm.register_value(&Register::Flag) & 0b10, 0);
}

#[test]
fn memory_store() {
    let (vm, result) = run(b"mov [0x1000], 0xDEADBEEF\nhlt");
    assert_eq!(result, Ok(()));
    assert!(vm.is_halted());
    assert_eq!(vm.memory_value(&0x1000), Ok(0xdead_beef));
    assert_eq!(vm.memory_value(&0x0ffe), Ok(0x0000_dead));
    assert_eq!(vm.memory_value(&0x1002), Ok(0xbeef_0000));
}

#[test]
fn forward_label() {
    let (vm, result) = run(b"jmp end\nmov r0, 1\nend: mov r0, 2\nhlt");
    assert_eq!(result, Ok(()));
    assert!(vm.is_halted());
    assert_eq!(vm.register_value(&Register::GeneralPurpose0), 2);
}

#[test]
fn a_conditional_jump_takes_the_distance_to_a_label_as_an_address() {
    let source = b"f: mov r0, 0\n.loop: add r0, 1\ncmp r0, 3\njnz .loop, fl\nhlt";
    assert_eq!(
        assemble(source),
        Ok(vec![
            0x02, 0x10, 0, 0, 0, 0, 0x09, 0x10, 0, 0, 0, 1, 0x10, 0x10, 0, 0, 0, 3, 0x13, 0x42,
            0xff, 0xff, 0xff, 0xf4, 0x01
        ])
    );
    let (vm, result) = run(source);
    assert_eq!(result, Err(VmError::OutOfInstructions));
    assert_eq!(vm.register_value(&Register::ProgramCounter), 0xffff_fff4);
    assert_eq!(vm.register_value(&Register::GeneralPurpose0), 1);
    assert_eq!(vm.register_value(&Register::Flag), 0b11000);
}

#[test]
fn a_loop_on_the_flags_of_a_comparison() {
    let (vm, result) =
        run(b"mov r0, 0\nloop: add r0, 1\ncmp r0, 3\nand fl, 0x10\njnz abs_loop, fl\nhlt");
    assert_eq!(result, Ok(()));
    assert!(vm.is_halted());
    assert_eq!(vm.register_value(&Register::GeneralPurpose0), 3);
}

#[test]
fn indirect_load() {
    let (vm, result) = run(b"mov r0, [0x2000]\nhlt\n%offset 0x1ff9\ndw 0x41424344\n");
    assert_eq!(result, Ok(()));
    assert!(vm.is_halted());
    assert_eq!(vm.register_value(&Register::GeneralPurpose0), 0x4142_4344);
}

#[test]
fn define() {
    let source = b"%define K 0xAA\nmov r0, K\nhlt";
    assert_eq!(assemble(source), Ok(vec![0x02, 0x10, 0x00, 0x00, 0x00, 0xaa, 0x01]));
    let (vm, result) = run(source);
    assert_eq!(result, Ok(()));
    assert_eq!(vm.register_value(&Register::GeneralPurpose0), 0xaa);
}

#[test]
fn the_run_depends_on_the_image_alone() {
    let first = b"%define K 5\nstart: mov r0, K\nadd r0, [abs_data]\nhlt\ndata: dw 7\n";
    let second = b"; another text\nmov r0, 5\n   add r0, [0xd]\nhlt\ndb 0, 0, 0, 7\n";
    assert_eq!(assemble(first), assemble(second));
    let (one, first_result) = run(first);
    let (other, second_result) = run(second);
    assert_eq!(first_result, second_result);
    for register in [
        Register::GeneralPurpose0,
        Register::GeneralPurpose1,
        Register::Flag,
        Register::ProgramCounter,
    ] {
        assert_eq!(one.register_value(&register), other.register_value(&register));
    }
    assert_eq!(one.register_value(&Register::GeneralPurpose0), 12);
    for address in 0..32u32 {
        assert_eq!(one.memory_value(&address), other.memory_value(&address));
    }
}
