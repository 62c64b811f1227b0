//! The conventional memory map of the screen and the keyboard, and what
//! the host does to a machine on their behalf.

use crate::encoding::Register;
use crate::vm::machine::Vm;
use crate::vm::state::{VmError, VmState};
use crate::word::{be_bytes, from_be_bytes, to_be_bytes, word_of, wrap, Word};
use vstd::prelude::*;

verus! {

/// Where the host says whether there is a screen.
pub const SCREEN_ENABLED_LOCATION: u32 = 0x2030;

/// Where the host says at which address the pixels begin.
pub const SCREEN_VRAM_ADDRESS_LOCATION: u32 = 0x2034;

/// Where the host says how many pixels a row has.
pub const SCREEN_WIDTH_LOCATION: u32 = 0x2038;

/// Where the host says how many rows the screen has.
pub const SCREEN_HEIGHT_LOCATION: u32 = 0x203C;

/// Where a program says whether it listens to the keyboard.
pub const KEYBOARD_ENABLED_LOCATION: u32 = 0x2020;

/// Where the host says whether a key went down (1) or up (2).
pub const KEY_EVENT_TYPE_LOCATION: u32 = 0x2024;

/// Where the host says which key it was.
pub const KEYCODE_LOCATION: u32 = 0x2028;

/// Where a program says at which address its key handler begins.
pub const KEY_EVENT_CALLBACK_LOCATION: u32 = 0x202C;

/// The pixels of a row.
pub const SCREEN_WIDTH: u32 = 120;

/// The rows of the screen.
pub const SCREEN_HEIGHT: u32 = 96;

/// The address of the first pixel.
pub const SCREEN_VRAM_ADDRESS: u32 = 0x3000;

/// How many times a pixel is enlarged on the host's window.
pub const SCALE: u32 = 4;

/// What happened to a key.
#[derive(Clone, Copy, Debug, PartialEq, Eq, Structural)]
pub enum KeyEvent {
    Down,
    Up,
}

impl KeyEvent {
    /// The word that tells a program what happened: 1 for down, 2 for up.
    pub open spec fn code(self) -> Word {
        match self {
            KeyEvent::Down => 1,
            KeyEvent::Up => 2,
        }
    }
}

/// The state after one more word write, unless an earlier one failed.
pub open spec fn then_write(
    written: (VmState, Result<(), VmError>),
    address: Word,
    value: Word,
) -> (VmState, Result<(), VmError>) {
    match written.1 {
        Err(_) => written,
        Ok(()) => (written.0.write_word(address, value), written.0.write_result(address)),
    }
}

/// The state of a machine after the host has described the screen: it is
/// enabled, and its pixel address, width and height are written, in this
/// order, up to the first write that fails.
pub open spec fn initialized(state: VmState) -> (VmState, Result<(), VmError>) {
    then_write(
        then_write(
            then_write(
                then_write((state, Ok(())), SCREEN_ENABLED_LOCATION, 1),
                SCREEN_VRAM_ADDRESS_LOCATION,
                SCREEN_VRAM_ADDRESS,
            ),
            SCREEN_WIDTH_LOCATION,
            SCREEN_WIDTH,
        ),
        SCREEN_HEIGHT_LOCATION,
        SCREEN_HEIGHT,
    )
}

/// Describes the screen to a freshly loaded machine.
pub fn initialize_vm(vm: &mut Vm) -> (done: Result<(), VmError>)
    requires
        old(vm)@.wf(),
    ensures
        final(vm)@.wf(),
        (final(vm)@, done) == initialized(old(vm)@),
{
    match vm.set_memory_value(&SCREEN_ENABLED_LOCATION, 1) {
        Ok(()) => {},
        Err(error) => { return Err(error); },
    }
    match vm.set_memory_value(&SCREEN_VRAM_ADDRESS_LOCATION, SCREEN_VRAM_ADDRESS) {
        Ok(()) => {},
        Err(error) => { return Err(error); },
    }
    match vm.set_memory_value(&SCREEN_WIDTH_LOCATION, SCREEN_WIDTH) {
        Ok(()) => {},
        Err(error) => { return Err(error); },
    }
    vm.set_memory_value(&SCREEN_HEIGHT_LOCATION, SCREEN_HEIGHT)
}

/// The state of a machine after a key event: the key and what happened to
/// it are written; then, if the program has named a handler, the program
/// counter is set to it, which ends a halt.
pub open spec fn after_key(state: VmState, event: KeyEvent, scancode: Word) -> (
    VmState,
    Result<(), VmError>,
) {
    let written = then_write(
        then_write((state, Ok(())), KEYCODE_LOCATION, scancode),
        KEY_EVENT_TYPE_LOCATION,
        event.code(),
    );
    match written.1 {
        Err(_) => written,
        Ok(()) => match written.0.read_word(KEY_EVENT_CALLBACK_LOCATION) {
            Err(error) => (written.0, Err(error)),
            Ok(callback) => if callback != 0 {
                (written.0.with_pc(callback), Ok(()))
            } else {
                written
            },
        },
    }
}

/// Delivers a key event to a machine.
pub fn deliver_key_event(vm: &mut Vm, event: KeyEvent, scancode: u32) -> (done: Result<
    (),
    VmError,
>)
    requires
        old(vm)@.wf(),
    ensures
        final(vm)@.wf(),
        (final(vm)@, done) == after_key(old(vm)@, event, scancode),
{
    match vm.set_memory_value(&KEYCODE_LOCATION, scancode) {
        Ok(()) => {},
        Err(error) => { return Err(error); },
    }
    let code: u32 = match event {
        KeyEvent::Down => 1,
        KeyEvent::Up => 2,
    };
    match vm.set_memory_value(&KEY_EVENT_TYPE_LOCATION, code) {
        Ok(()) => {},
        Err(error) => { return Err(error); },
    }
    let callback = match vm.memory_value(&KEY_EVENT_CALLBACK_LOCATION) {
        Ok(callback) => callback,
        Err(error) => { return Err(error); },
    };
    if callback != 0 {
        vm.set_register_value(&Register::ProgramCounter, callback);
    }
    Ok(())
}

/// The address of the pixel in column `x` of row `y`, for pixels that begin
/// at `vram`: four bytes a pixel, row after row, within 32 bits.
pub open spec fn pixel_address(vram: Word, x: u32, y: u32) -> Word {
    wrap(vram + x * 4 + y * 4 * SCREEN_WIDTH)
}

/// The red, green and blue of a pixel word `RRGGBB00`.
pub open spec fn colour_of(pixel: Word) -> (u8, u8, u8) {
    (be_bytes(pixel)[0], be_bytes(pixel)[1], be_bytes(pixel)[2])
}

/// The colour that a machine shows in column `x` of row `y`.
pub open spec fn shown(state: VmState, x: u32, y: u32) -> Result<(u8, u8, u8), VmError> {
    match state.read_word(SCREEN_VRAM_ADDRESS_LOCATION) {
        Err(error) => Err(error),
        Ok(vram) => match state.read_word(pixel_address(vram, x, y)) {
            Err(error) => Err(error),
            Ok(pixel) => Ok(colour_of(pixel)),
        },
    }
}

/// Reads the colour of one pixel of the screen of a machine.
pub fn pixel(vm: &Vm, x: u32, y: u32) -> (colour: Result<(u8, u8, u8), VmError>)
    requires
        x < SCREEN_WIDTH,
        y < SCREEN_HEIGHT,
    ensures
        colour == shown(vm@, x, y),
{
    let vram = match vm.memory_value(&SCREEN_VRAM_ADDRESS_LOCATION) {
        Ok(vram) => vram,
        Err(error) => { return Err(error); },
    };
    let offset: u64 = x as u64 * 4 + y as u64 * 4 * SCREEN_WIDTH as u64;
    let address = crate::vm::alu::wrap_wide((vram as u64 + offset) as i64);
    match vm.memory_value(&address) {
        Ok(pixel) => {
            let bytes = to_be_bytes(pixel);
            Ok((bytes[0], bytes[1], bytes[2]))
        },
        Err(error) => Err(error),
    }
}

/// The pixel word `RRGGBB00` of a colour.
pub fn pixel_to_word(red: u8, green: u8, blue: u8) -> (pixel: u32)
    ensures
        pixel == word_of(red, green, blue, 0),
        colour_of(pixel) == (red, green, blue),
{
    proof {
        crate::word::lemma_be_bytes_of_word(red, green, blue, 0);
    }
    from_be_bytes(red, green, blue, 0)
}

} // verus!
