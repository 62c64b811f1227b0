//! Pictures as programs: the instructions that draw the pixels of a
//! picture on the screen.

use crate::encoding::{Register, Selector};
use crate::instructions::{Instruction, InstructionView, Payload, Target, TargetView};
use crate::peripherals::pixel_to_word;
use crate::word::{word_of, Word};
use vstd::prelude::*;

verus! {

/// One pixel of a picture: its column, its row and its colour.
#[derive(Clone, Copy, Debug, PartialEq, Eq, Structural)]
pub struct Pixel {
    pub x: u32,
    pub y: u32,
    pub red: u8,
    pub green: u8,
    pub blue: u8,
    /// How opaque the pixel is. Only a pixel that is fully opaque is drawn.
    pub alpha: u8,
}

/// A register as an operand.
pub open spec fn register(register: Register) -> TargetView {
    TargetView { selector: Selector::Register, payload: Payload::Register(register) }
}

/// The memory word whose address a register holds, as an operand.
pub open spec fn register_address(register: Register) -> TargetView {
    TargetView { selector: Selector::RegisterAddress, payload: Payload::Register(register) }
}

/// A literal as an operand.
pub open spec fn immediate(word: Word) -> TargetView {
    TargetView { selector: Selector::Immediate, payload: Payload::Literal(word) }
}

/// The memory word at an address, as an operand.
pub open spec fn immediate_address(word: Word) -> TargetView {
    TargetView { selector: Selector::ImmediateAddress, payload: Payload::Literal(word) }
}

/// MOV, MUL and ADD of a destination and a source.
pub open spec fn two(opcode: u8, destination: TargetView, source: TargetView) -> InstructionView {
    InstructionView::TwoOperand { opcode, destination, source }
}

/// Whether a pixel is drawn: it is fully opaque.
pub open spec fn is_drawn(pixel: Pixel) -> bool {
    pixel.alpha == 255
}

/// The instructions that draw one pixel, for a picture whose first pixel
/// lies at the offset in `r0`: `r1` becomes the row times the width of the
/// screen, read from `screen_width`, plus the address of the first pixel of
/// the screen, read from `vram`, plus the column unless it is zero, plus
/// `r0`; then the pixel word is stored where `r1` points.
pub open spec fn pixel_program(vram: u32, screen_width: u32, pixel: Pixel) -> Seq<InstructionView> {
    let r0 = Register::GeneralPurpose0;
    let r1 = Register::GeneralPurpose1;
    seq![
        two(0x02, register(r1), immediate(pixel.y)),
        two(0x0b, register(r1), immediate_address(screen_width)),
        two(0x09, register(r1), immediate_address(vram)),
    ] + (if pixel.x == 0 {
        Seq::empty()
    } else {
        seq![two(0x09, register(r1), immediate(pixel.x))]
    }) + seq![
        two(0x09, register(r1), register(r0)),
        two(
            0x02,
            register_address(r1),
            immediate(word_of(pixel.red, pixel.green, pixel.blue, 0)),
        ),
    ]
}

/// The instructions that draw the first `count` pixels of a picture: those
/// of each pixel that is drawn, in order.
pub open spec fn picture_program(
    vram: u32,
    screen_width: u32,
    image: Seq<Pixel>,
    count: nat,
) -> Seq<InstructionView>
    decreases count,
{
    if count == 0 {
        Seq::empty()
    } else if is_drawn(image[count - 1]) {
        picture_program(vram, screen_width, image, (count - 1) as nat) + pixel_program(
            vram,
            screen_width,
            image[count - 1],
        )
    } else {
        picture_program(vram, screen_width, image, (count - 1) as nat)
    }
}

/// The models of a run of instructions.
pub open spec fn views_of(instructions: Seq<Instruction>) -> Seq<InstructionView> {
    Seq::new(instructions.len(), |i: int| instructions[i]@)
}

/// Appends the instructions that draw one pixel.
fn push_pixel(instructions: &mut Vec<Instruction>, vram: u32, screen_width: u32, pixel: &Pixel)
    ensures
        views_of(final(instructions)@) == views_of(old(instructions)@) + pixel_program(
            vram,
            screen_width,
            *pixel,
        ),
{
    instructions.push(
        Instruction::Mov(Target::Register(Register::GeneralPurpose1), Target::Immediate(pixel.y)),
    );
    instructions.push(
        Instruction::Mul(
            Target::Register(Register::GeneralPurpose1),
            Target::ImmediateAddress(screen_width),
        ),
    );
    instructions.push(
        Instruction::Add(Target::Register(Register::GeneralPurpose1), Target::ImmediateAddress(vram)),
    );
    if pixel.x != 0 {
        instructions.push(
            Instruction::Add(
                Target::Register(Register::GeneralPurpose1),
                Target::Immediate(pixel.x),
            ),
        );
    }
    instructions.push(
        Instruction::Add(
            Target::Register(Register::GeneralPurpose1),
            Target::Register(Register::GeneralPurpose0),
        ),
    );
    instructions.push(
        Instruction::Mov(
            Target::RegisterAddress(Register::GeneralPurpose1),
            Target::Immediate(pixel_to_word(pixel.red, pixel.green, pixel.blue)),
        ),
    );
    assert(views_of(instructions@) =~= views_of(old(instructions)@) + pixel_program(
        vram,
        screen_width,
        *pixel,
    ));
}

/// The instructions that draw a picture: those of each of its pixels that
/// is fully opaque, in the order of the pixels.
pub fn image_to_instructions(vram: u32, screen_width: u32, image: &[Pixel]) -> (instructions: Vec<
    Instruction,
>)
    ensures
        views_of(instructions@) == picture_program(vram, screen_width, image@, image@.len()),
{
    let mut instructions: Vec<Instruction> = Vec::new();
    let mut index: usize = 0;
    assert(views_of(instructions@) =~= Seq::<InstructionView>::empty());
    while index < image.len()
        invariant
            index <= image.len(),
            views_of(instructions@) == picture_program(vram, screen_width, image@, index as nat),
        decreases image.len() - index,
    {
        if image[index].alpha == 255 {
            push_pixel(&mut instructions, vram, screen_width, &image[index]);
        }
        index += 1;
    }
    instructions
}

} // verus!
