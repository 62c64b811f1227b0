use vc2::encoding::Register;
use vc2::peripherals::{
    deliver_key_event, initialize_vm, pixel, pixel_to_word, KeyEvent, KEYCODE_LOCATION,
    KEY_EVENT_CALLBACK_LOCATION, KEY_EVENT_TYPE_LOCATION, SCREEN_ENABLED_LOCATION,
    SCREEN_HEIGHT, SCREEN_HEIGHT_LOCATION, SCREEN_VRAM_ADDRESS, SCREEN_VRAM_ADDRESS_LOCATION,
    SCREEN_WIDTH, SCREEN_WIDTH_LOCATION,
};
use vc2::vm::machine::Vm;
use vc2::vm::state::VmError;

#[test]
fn the_memory_map() {
    assert_eq!(SCREEN_ENABLED_LOCATION, 0x2030);
    assert_eq!(SCREEN_VRAM_ADDRESS_LOCATION, 0x2034);
    assert_eq!(SCREEN_WIDTH_LOCATION, 0x2038);
    assert_eq!(SCREEN_HEIGHT_LOCATION, 0x203c);
    assert_eq!(KEY_EVENT_TYPE_LOCATION, 0x2024);
    assert_eq!(KEYCODE_LOCATION, 0x2028);
    assert_eq!(KEY_EVENT_CALLBACK_LOCATION, 0x202c);
}

#[test]
fn the_screen_is_described_to_the_machine() {
    let mut vm = Vm::new(vec![0x01], 0x30000);
    assert_eq!(initialize_vm(&mut vm), Ok(()));
    assert_eq!(vm.memory_value(&0x2030), Ok(1));
    assert_eq!(vm.memory_value(&0x2034), Ok(SCREEN_VRAM_ADDRESS));
    assert_eq!(vm.memory_value(&0x2038), Ok(SCREEN_WIDTH));
    assert_eq!(vm.memory_value(&0x203c), Ok(SCREEN_HEIGHT));
    assert_eq!(vm.memory_value(&0x202c), Ok(0));
    assert_eq!(vm.memory_value(&0), Ok(0x0100_0000));
}

#[test]
fn a_small_memory_takes_what_fits() {
    let mut vm = Vm::new(Vec::new(), 0x203a);
    assert_eq!(
        initialize_vm(&mut vm),
        Err(VmError::MemoryOutOfRange { address: 0x2038 })
    );
    assert_eq!(vm.memory_value(&0x2030), Ok(1));
    assert_eq!(vm.memory_value(&0x2034), Ok(SCREEN_VRAM_ADDRESS));
    let mut vm = Vm::new(Vec::new(), 16);
    assert_eq!(
        initialize_vm(&mut vm),
        Err(VmError::MemoryOutOfRange { address: 0x2030 })
    );
}

#[test]
fn a_key_event_wakes_a_halted_machine() {
    let mut vm = Vm::new(vec![0x01], 0x30000);
    assert_eq!(vm.run_next_instruction(), Ok(()));
    assert!(vm.is_halted());
    assert_eq!(deliver_key_event(&mut vm, KeyEvent::Down, 44), Ok(()));
    assert_eq!(vm.memory_value(&KEYCODE_LOCATION), Ok(44));
    assert_eq!(vm.memory_value(&KEY_EVENT_TYPE_LOCATION), Ok(1));
    assert!(vm.is_halted());
    assert_eq!(vm.register_value(&Register::ProgramCounter), 1);

    vm.set_memory_value(&KEY_EVENT_CALLBACK_LOCATION, 0x100).unwrap();
    assert_eq!(deliver_key_event(&mut vm, KeyEvent::Up, 45), Ok(()));
    assert_eq!(vm.memory_value(&KEYCODE_LOCATION), Ok(45));
    assert_eq!(vm.memory_value(&KEY_EVENT_TYPE_LOCATION), Ok(2));
    assert_eq!(vm.register_value(&Register::ProgramCounter), 0x100);
    assert!(!vm.is_halted());
    assert_eq!(vm.register_value(&Register::Flag), 0);
}

#[test]
fn a_key_event_needs_the_memory_map() {
    let mut vm = Vm::new(Vec::new(), 0x2026);
    assert_eq!(
        deliver_key_event(&mut vm, KeyEvent::Down, 7),
        Err(VmError::MemoryOutOfRange { address: KEYCODE_LOCATION })
    );
    let mut vm = Vm::new(Vec::new(), 0x202c);
    assert_eq!(
        deliver_key_event(&mut vm, KeyEvent::Down, 7),
        Err(VmError::MemoryOutOfRange { address: KEY_EVENT_CALLBACK_LOCATION })
    );
    assert_eq!(vm.memory_value(&KEYCODE_LOCATION), Ok(7));
    assert_eq!(vm.memory_value(&KEY_EVENT_TYPE_LOCATION), Ok(1));
}

#[test]
fn pixels_are_red_green_blue_and_nothing() {
    assert_eq!(pixel_to_word(0x12, 0x34, 0x56), 0x1234_5600);
    assert_eq!(pixel_to_word(0xff, 0, 0), 0xff00_0000);
    let mut vm = Vm::new(Vec::new(), 0x30000);
    initialize_vm(&mut vm).unwrap();
    vm.set_memory_value(&0x3000, 0x1122_33ff).unwrap();
    vm.set_memory_value(&(0x3000 + 4 * 5 + 4 * 120 * 7), 0xaabb_cc00).unwrap();
    assert_eq!(pixel(&vm, 0, 0), Ok((0x11, 0x22, 0x33)));
    assert_eq!(pixel(&vm, 5, 7), Ok((0xaa, 0xbb, 0xcc)));
    assert_eq!(pixel(&vm, 119, 95), Ok((0, 0, 0)));
    vm.set_memory_value(&SCREEN_VRAM_ADDRESS_LOCATION, 0x2fffc).unwrap();
    assert_eq!(pixel(&vm, 0, 0), Ok((0, 0, 0)));
    assert_eq!(pixel(&vm, 1, 0), Err(VmError::MemoryOutOfRange { address: 0x30000 }));
    vm.set_memory_value(&SCREEN_VRAM_ADDRESS_LOCATION, 0xffff_fffc).unwrap();
    assert_eq!(pixel(&vm, 1, 0), Ok((0, 0, 0)));
}
