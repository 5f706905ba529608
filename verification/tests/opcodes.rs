use chip8::Emulator;

fn boot(rom: &[u8]) -> Emulator {
    let mut e = Emulator::new();
    e.load_rom(&rom.to_vec()).unwrap();
    e
}

fn run(rom: &[u8], ticks: usize) -> Emulator {
    let mut e = boot(rom);
    for _ in 0..ticks {
        e.tick().unwrap();
    }
    e
}

#[test]
fn nop_only_advances_the_program_counter() {
    let e = run(&[0x00, 0x00], 1);
    assert_eq!(e.pc, 0x202);
    assert!(e.v_registers.iter().all(|&v| v == 0));
}

#[test]
fn set_and_add_immediate() {
    // VA = 250; VA += 10 wraps to 4 without touching VF
    let e = run(&[0x6A, 0xFA, 0x7A, 0x0A], 2);
    assert_eq!(e.v_registers[0xA], 4);
    assert_eq!(e.v_registers[0xF], 0);
}

#[test]
fn copy_or_and_xor_registers() {
    // V1 = 0b1100, V2 = 0b1010
    let setup = [0x61, 0x0C, 0x62, 0x0A];
    let mut rom = setup.to_vec();
    rom.extend_from_slice(&[0x81, 0x21]); // V1 |= V2
    let e = run(&rom, 3);
    assert_eq!(e.v_registers[1], 0x0E);

    let mut rom = setup.to_vec();
    rom.extend_from_slice(&[0x81, 0x22]); // V1 &= V2
    let e = run(&rom, 3);
    assert_eq!(e.v_registers[1], 0x08);

    let mut rom = setup.to_vec();
    rom.extend_from_slice(&[0x81, 0x23]); // V1 ^= V2
    let e = run(&rom, 3);
    assert_eq!(e.v_registers[1], 0x06);

    let mut rom = setup.to_vec();
    rom.extend_from_slice(&[0x81, 0x20]); // V1 = V2
    let e = run(&rom, 3);
    assert_eq!(e.v_registers[1], 0x0A);
}

#[test]
fn add_registers_sets_carry_exactly_on_overflow() {
    // 200 + 100 = 300: wraps to 44, carry set
    let e = run(&[0x61, 0xC8, 0x62, 0x64, 0x81, 0x24], 3);
    assert_eq!(e.v_registers[1], 44);
    assert_eq!(e.v_registers[0xF], 1);

    // 255 + 1 wraps to 0, carry set
    let e = run(&[0x61, 0xFF, 0x62, 0x01, 0x81, 0x24], 3);
    assert_eq!(e.v_registers[1], 0);
    assert_eq!(e.v_registers[0xF], 1);

    // 100 + 155 = 255: the largest sum without carry
    let e = run(&[0x61, 0x64, 0x62, 0x9B, 0x81, 0x24], 3);
    assert_eq!(e.v_registers[1], 255);
    assert_eq!(e.v_registers[0xF], 0);
}

#[test]
fn sub_registers_clears_flag_exactly_on_borrow() {
    // 10 - 20 borrows: wraps to 246, VF = 0
    let e = run(&[0x61, 0x0A, 0x62, 0x14, 0x81, 0x25], 3);
    assert_eq!(e.v_registers[1], 246);
    assert_eq!(e.v_registers[0xF], 0);

    // 20 - 10 = 10, no borrow, VF = 1
    let e = run(&[0x61, 0x14, 0x62, 0x0A, 0x81, 0x25], 3);
    assert_eq!(e.v_registers[1], 10);
    assert_eq!(e.v_registers[0xF], 1);

    // equal operands: zero, no borrow
    let e = run(&[0x61, 0x0A, 0x62, 0x0A, 0x81, 0x25], 3);
    assert_eq!(e.v_registers[1], 0);
    assert_eq!(e.v_registers[0xF], 1);
}

#[test]
fn sub_from_reverses_the_operands() {
    // V1 = V2 - V1 = 20 - 10 = 10, no borrow
    let e = run(&[0x61, 0x0A, 0x62, 0x14, 0x81, 0x27], 3);
    assert_eq!(e.v_registers[1], 10);
    assert_eq!(e.v_registers[0xF], 1);

    // V1 = V2 - V1 = 10 - 20 borrows
    let e = run(&[0x61, 0x14, 0x62, 0x0A, 0x81, 0x27], 3);
    assert_eq!(e.v_registers[1], 246);
    assert_eq!(e.v_registers[0xF], 0);
}

#[test]
fn shift_right_keeps_the_dropped_bit() {
    let e = run(&[0x61, 0x05, 0x81, 0x06], 2);
    assert_eq!(e.v_registers[1], 2);
    assert_eq!(e.v_registers[0xF], 1);

    let e = run(&[0x61, 0x04, 0x81, 0x06], 2);
    assert_eq!(e.v_registers[1], 2);
    assert_eq!(e.v_registers[0xF], 0);
}

#[test]
fn shift_left_keeps_the_dropped_bit() {
    let e = run(&[0x61, 0x81, 0x81, 0x0E], 2);
    assert_eq!(e.v_registers[1], 0x02);
    assert_eq!(e.v_registers[0xF], 1);

    let e = run(&[0x61, 0x41, 0x81, 0x0E], 2);
    assert_eq!(e.v_registers[1], 0x82);
    assert_eq!(e.v_registers[0xF], 0);
}

#[test]
fn skip_when_equal_immediate() {
    // V1 = 7; skip if V1 == 7: the next instruction is jumped over
    let e = run(&[0x61, 0x07, 0x31, 0x07], 2);
    assert_eq!(e.pc, 0x206);
    // V1 = 7; skip if V1 == 8: no skip
    let e = run(&[0x61, 0x07, 0x31, 0x08], 2);
    assert_eq!(e.pc, 0x204);
}

#[test]
fn skip_when_not_equal_immediate() {
    let e = run(&[0x61, 0x07, 0x41, 0x08], 2);
    assert_eq!(e.pc, 0x206);
    let e = run(&[0x61, 0x07, 0x41, 0x07], 2);
    assert_eq!(e.pc, 0x204);
}

#[test]
fn skip_on_register_comparisons() {
    // V1 == V2: skip
    let e = run(&[0x61, 0x07, 0x62, 0x07, 0x51, 0x20], 3);
    assert_eq!(e.pc, 0x208);
    // V1 != V2: no skip
    let e = run(&[0x61, 0x07, 0x62, 0x08, 0x51, 0x20], 3);
    assert_eq!(e.pc, 0x206);
    // 9XY0 skips exactly when they differ
    let e = run(&[0x61, 0x07, 0x62, 0x08, 0x91, 0x20], 3);
    assert_eq!(e.pc, 0x208);
    let e = run(&[0x61, 0x07, 0x62, 0x07, 0x91, 0x20], 3);
    assert_eq!(e.pc, 0x206);
}

#[test]
fn jump_sets_the_program_counter() {
    let e = run(&[0x12, 0x34], 1);
    assert_eq!(e.pc, 0x234);
}

#[test]
fn jump_with_offset_adds_v0() {
    let e = run(&[0x60, 0x10, 0xB3, 0x00], 2);
    assert_eq!(e.pc, 0x310);
}

#[test]
fn set_index_register() {
    let e = run(&[0xA1, 0x23], 1);
    assert_eq!(e.i_register, 0x123);
}

#[test]
fn add_to_index_register() {
    let e = run(&[0xAF, 0xFF, 0x6A, 0x10, 0xFA, 0x1E], 3);
    assert_eq!(e.i_register, 0xFFF + 0x10);
}

#[test]
fn add_to_index_register_wraps_at_16_bits() {
    // I = 0xFFF, VA = 255, then FA1E in a jump loop
    let rom = [0xAF, 0xFF, 0x6A, 0xFF, 0xFA, 0x1E, 0x12, 0x04];
    let mut e = boot(&rom);
    e.tick().unwrap(); // I = 0xFFF
    e.tick().unwrap(); // VA = 255
    let mut expected: u16 = 0xFFF;
    for _ in 0..300 {
        e.tick().unwrap(); // I += VA
        expected = expected.wrapping_add(255);
        assert_eq!(e.i_register, expected);
        e.tick().unwrap(); // jump back
    }
}

#[test]
fn font_char_points_at_the_glyph() {
    let e = run(&[0x6A, 0x0F, 0xFA, 0x29], 2);
    assert_eq!(e.i_register, 75);
}

#[test]
fn end_to_end_font_lookup_of_digit_five() {
    // VA = 5 then I = VA * 5: two ticks yield I == 25
    let e = run(&[0x6A, 0x05, 0xFA, 0x29], 2);
    assert_eq!(e.i_register, 25);
}

#[test]
fn random_mask_zero_yields_zero() {
    // whatever byte the generator gives, AND 0 clears it
    let e = run(&[0x6A, 0xFF, 0xCA, 0x00], 2);
    assert_eq!(e.v_registers[0xA], 0);
}

#[test]
fn random_mask_keeps_only_masked_bits() {
    let e = run(&[0xCA, 0x0F], 1);
    assert_eq!(e.v_registers[0xA] & 0xF0, 0);
}

#[test]
fn random_mask_applies_the_mask_to_the_supplied_byte() {
    // executing the opcode directly pins the byte the random source gave
    let mut e = Emulator::new();
    e.execute_opcode(0xCA0F, 0xAB).unwrap();
    assert_eq!(e.v_registers[0xA], 0x0B);
    e.execute_opcode(0xCAF0, 0xAB).unwrap();
    assert_eq!(e.v_registers[0xA], 0xA0);
}
