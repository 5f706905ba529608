use chip8::{Emulator, EmuError};

fn boot(rom: &[u8]) -> Emulator {
    let mut e = Emulator::new();
    e.load_rom(&rom.to_vec()).unwrap();
    e
}

#[test]
fn call_pushes_and_return_pops_the_address_after_the_call() {
    // 0x200: call 0x208 ... 0x208: return
    let mut e = boot(&[0x22, 0x08, 0, 0, 0, 0, 0, 0, 0x00, 0xEE]);
    e.tick().unwrap();
    assert_eq!(e.pc, 0x208);
    assert_eq!(e.stack_pointer, 1);
    assert_eq!(e.stack[0], 0x202);
    e.tick().unwrap();
    assert_eq!(e.pc, 0x202);
    assert_eq!(e.stack_pointer, 0);
}

#[test]
fn nested_calls_return_in_reverse_order() {
    // 0x200: call 0x208; 0x208: call 0x20C; 0x20C: ret; 0x20A: ret
    let mut e = boot(&[
        0x22, 0x08, 0, 0, 0, 0, 0, 0, // 0x200..0x208
        0x22, 0x0C, // 0x208: call 0x20C
        0x00, 0xEE, // 0x20A: return
        0x00, 0xEE, // 0x20C: return
    ]);
    e.tick().unwrap();
    assert_eq!(e.pc, 0x208);
    e.tick().unwrap();
    assert_eq!(e.pc, 0x20C);
    assert_eq!(e.stack_pointer, 2);
    assert_eq!(e.stack[0], 0x202);
    assert_eq!(e.stack[1], 0x20A);
    e.tick().unwrap();
    // the most recent unmatched call is popped first
    assert_eq!(e.pc, 0x20A);
    e.tick().unwrap();
    assert_eq!(e.pc, 0x202);
    assert_eq!(e.stack_pointer, 0);
}

#[test]
fn wait_key_blocks_until_a_key_is_pressed() {
    let mut e = boot(&[0xFA, 0x0A]);
    for _ in 0..3 {
        e.tick().unwrap();
        assert_eq!(e.pc, 0x200);
        assert_eq!(e.v_registers[0xA], 0);
    }
    e.key_press(7, true);
    e.tick().unwrap();
    assert_eq!(e.pc, 0x202);
    assert_eq!(e.v_registers[0xA], 7);
}

#[test]
fn wait_key_takes_the_lowest_pressed_key() {
    let mut e = boot(&[0xFA, 0x0A]);
    e.key_press(9, true);
    e.key_press(3, true);
    e.tick().unwrap();
    assert_eq!(e.v_registers[0xA], 3);
}

#[test]
fn skip_when_key_pressed() {
    // VA = 4; skip when key 4 pressed
    let mut e = boot(&[0x6A, 0x04, 0xEA, 0x9E]);
    e.key_press(4, true);
    e.tick().unwrap();
    e.tick().unwrap();
    assert_eq!(e.pc, 0x206);

    let mut e = boot(&[0x6A, 0x04, 0xEA, 0x9E]);
    e.tick().unwrap();
    e.tick().unwrap();
    assert_eq!(e.pc, 0x204);
}

#[test]
fn skip_when_key_released() {
    let mut e = boot(&[0x6A, 0x04, 0xEA, 0xA1]);
    e.tick().unwrap();
    e.tick().unwrap();
    assert_eq!(e.pc, 0x206);

    let mut e = boot(&[0x6A, 0x04, 0xEA, 0xA1]);
    e.key_press(4, true);
    e.tick().unwrap();
    e.tick().unwrap();
    assert_eq!(e.pc, 0x204);
}

#[test]
fn timers_are_set_and_read_by_instructions() {
    // VA = 9; DT = VA; ST = VA; VB = DT
    let mut e = boot(&[0x6A, 0x09, 0xFA, 0x15, 0xFA, 0x18, 0xFB, 0x07]);
    for _ in 0..4 {
        e.tick().unwrap();
    }
    assert_eq!(e.delay_timer, 9);
    assert_eq!(e.sound_timer, 9);
    assert_eq!(e.v_registers[0xB], 9);
}

#[test]
fn tick_timers_decrements_both_while_nonzero() {
    let mut e = Emulator::new();
    e.delay_timer = 2;
    e.sound_timer = 3;
    let beep = e.tick_timers();
    assert_eq!(e.delay_timer, 1);
    assert_eq!(e.sound_timer, 2);
    assert!(!beep);
    e.tick_timers();
    e.tick_timers();
    assert_eq!(e.delay_timer, 0);
    assert_eq!(e.sound_timer, 0);
}

#[test]
fn sound_timer_beeps_exactly_once_on_its_last_tick() {
    let mut e = Emulator::new();
    e.sound_timer = 1;
    let beep = e.tick_timers();
    assert!(beep);
    assert_eq!(e.sound_timer, 0);
    let beep_again = e.tick_timers();
    assert!(!beep_again);
    assert_eq!(e.sound_timer, 0);
}

#[test]
fn invalid_opcode_is_reported_and_leaves_state_alone() {
    let mut e = boot(&[0xFF, 0xFF]);
    assert_eq!(e.tick(), Err(EmuError::InvalidOpcode));
    assert_eq!(e.pc, 0x200);

    // 5XY1 matches no decode rule either
    let mut e = boot(&[0x5A, 0xB1]);
    assert_eq!(e.tick(), Err(EmuError::InvalidOpcode));
    assert_eq!(e.pc, 0x200);
}

#[test]
fn call_past_the_stack_capacity_overflows() {
    // a subroutine that calls itself forever
    let mut e = boot(&[0x22, 0x00]);
    for depth in 1..=16 {
        e.tick().unwrap();
        assert_eq!(e.stack_pointer, depth);
    }
    assert_eq!(e.tick(), Err(EmuError::StackOverflow));
    assert_eq!(e.stack_pointer, 16);
    assert_eq!(e.pc, 0x200);
}

#[test]
fn return_with_an_empty_stack_underflows() {
    let mut e = boot(&[0x00, 0xEE]);
    assert_eq!(e.tick(), Err(EmuError::StackUnderflow));
    assert_eq!(e.pc, 0x200);
    assert_eq!(e.stack_pointer, 0);
}

#[test]
fn sprite_read_past_memory_is_reported() {
    // I = 0xFFF then a one-row draw reads past the end of memory
    let mut e = boot(&[0xAF, 0xFF, 0xD0, 0x02]);
    e.tick().unwrap();
    assert_eq!(e.tick(), Err(EmuError::MemoryOutOfRange));
    assert_eq!(e.pc, 0x202);
}

#[test]
fn fetch_past_memory_is_reported() {
    // jump to the last byte of memory: no full opcode can be fetched there
    let mut e = boot(&[0x1F, 0xFF]);
    e.tick().unwrap();
    assert_eq!(e.pc, 0xFFF);
    assert_eq!(e.tick(), Err(EmuError::MemoryOutOfRange));
    assert_eq!(e.pc, 0xFFF);
}

#[test]
fn key_test_with_a_register_beyond_the_keypad_is_reported() {
    let mut e = boot(&[0x6A, 0x10, 0xEA, 0x9E]);
    e.tick().unwrap();
    assert_eq!(e.tick(), Err(EmuError::IndexOutOfRange));
    assert_eq!(e.pc, 0x202);

    let mut e = boot(&[0x6A, 0x10, 0xEA, 0xA1]);
    e.tick().unwrap();
    assert_eq!(e.tick(), Err(EmuError::IndexOutOfRange));
}
