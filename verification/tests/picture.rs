use vc2::assembler::model::AssembleError;
use vc2::encoding::Register;
use vc2::instructions::{Instruction, InstructionOrLabel, Target};
use vc2::peripherals::{initialize_vm, pixel};
use vc2::picture::{image_to_instructions, Pixel};
use vc2::vm::machine::Vm;
use vc2::Assembler;

fn r1() -> Target {
    Target::Register(Register::GeneralPurpose1)
}

#[test]
fn a_pixel_takes_six_instructions_or_five() {
    let image = [
        Pixel { x: 0, y: 2, red: 1, green: 2, blue: 3, alpha: 255 },
        Pixel { x: 7, y: 0, red: 0xaa, green: 0xbb, blue: 0xcc, alpha: 255 },
    ];
    assert_eq!(
        image_to_instructions(0x2034, 0x2038, &image),
        vec![
            Instruction::Mov(r1(), Target::Immediate(2)),
            Instruction::Mul(r1(), Target::ImmediateAddress(0x2038)),
            Instruction::Add(r1(), Target::ImmediateAddress(0x2034)),
            Instruction::Add(r1(), Target::Register(Register::GeneralPurpose0)),
            Instruction::Mov(
                Target::RegisterAddress(Register::GeneralPurpose1),
                Target::Immediate(0x0102_0300)
            ),
            Instruction::Mov(r1(), Target::Immediate(0)),
            Instruction::Mul(r1(), Target::ImmediateAddress(0x2038)),
            Instruction::Add(r1(), Target::ImmediateAddress(0x2034)),
            Instruction::Add(r1(), Target::Immediate(7)),
            Instruction::Add(r1(), Target::Register(Register::GeneralPurpose0)),
            Instruction::Mov(
                Target::RegisterAddress(Register::GeneralPurpose1),
                Target::Immediate(0xaabb_cc00)
            ),
        ]
    );
}

#[test]
fn only_opaque_pixels_are_drawn() {
    let image = [
        Pixel { x: 0, y: 0, red: 1, green: 2, blue: 3, alpha: 254 },
        Pixel { x: 1, y: 0, red: 1, green: 2, blue: 3, alpha: 0 },
    ];
    assert_eq!(image_to_instructions(0x2034, 0x2038, &image), vec![]);
    assert_eq!(image_to_instructions(0x2034, 0x2038, &[]), vec![]);
}

fn assembled(items: &[InstructionOrLabel]) -> Result<Vec<u8>, AssembleError> {
    Assembler::new(items).assemble()
}

#[test]
fn the_program_of_a_picture_runs() {
    let image = [Pixel { x: 0, y: 0, red: 0x11, green: 0x22, blue: 0x33, alpha: 255 }];
    let mut items: Vec<InstructionOrLabel> = image_to_instructions(0x2034, 0x2038, &image)
        .into_iter()
        .map(InstructionOrLabel::Instruction)
        .collect();
    items.push(InstructionOrLabel::Instruction(Instruction::Hlt));
    let code = assembled(&items).unwrap();
    let mut vm = Vm::new(code, 0x30000);
    initialize_vm(&mut vm).unwrap();
    assert_eq!(vm.run(100).1, Ok(()));
    assert!(vm.is_halted());
    assert_eq!(pixel(&vm, 0, 0), Ok((0x11, 0x22, 0x33)));
    assert_eq!(vm.register_value(&Register::GeneralPurpose1), 0x3000);
}
