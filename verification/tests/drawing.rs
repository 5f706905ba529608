use chip8::{Emulator, SCREEN_WIDTH};

fn boot(rom: &[u8]) -> Emulator {
    let mut e = Emulator::new();
    e.load_rom(&rom.to_vec()).unwrap();
    e
}

fn run(rom: &[u8], ticks: usize) -> Emulator {
    let mut e = boot(rom);
    for _ in 0..ticks {
        e.tick().unwrap();
    }
    e
}

fn lit(e: &Emulator) -> Vec<usize> {
    e.get_display().iter().enumerate().filter(|(_, &p)| p).map(|(i, _)| i).collect()
}

#[test]
fn draw_one_row_of_the_zero_glyph() {
    // I stays 0: glyph 0 starts with 0xF0; draw one row at (0, 0)
    let e = run(&[0xD0, 0x01], 1);
    assert_eq!(lit(&e), vec![0, 1, 2, 3]);
    assert_eq!(e.v_registers[0xF], 0);
}

#[test]
fn draw_positions_by_the_operand_registers() {
    // draw one 0xF0 row at (10, 2)
    let e = run(&[0x61, 0x0A, 0x62, 0x02, 0xD1, 0x21], 3);
    let base = 2 * SCREEN_WIDTH + 10;
    assert_eq!(lit(&e), vec![base, base + 1, base + 2, base + 3]);
}

#[test]
fn draw_twice_restores_the_screen_and_reports_collision() {
    // the same one-row sprite drawn twice at the same position
    let e = run(&[0xD0, 0x01, 0xD0, 0x01], 2);
    assert!(e.get_display().iter().all(|&p| !p));
    assert_eq!(e.v_registers[0xF], 1);
}

#[test]
fn overlapping_draws_xor_and_collide() {
    // one 0xF0 row at (0,0), then another at (2,0): columns 2,3 toggle off
    let e = run(&[0xD0, 0x01, 0x61, 0x02, 0xD1, 0x01], 3);
    assert_eq!(lit(&e), vec![0, 1, 4, 5]);
    assert_eq!(e.v_registers[0xF], 1);
}

#[test]
fn draw_wraps_past_the_right_edge() {
    // VA = 63, VB = 0, I = 0x208 (a full 0xFF row), draw 1 row
    let e = run(&[0x6A, 0x3F, 0x6B, 0x00, 0xA2, 0x08, 0xDA, 0xB1, 0xFF, 0x00], 4);
    // bit 0 lands on column 63, the remaining seven wrap to columns 0..6
    assert_eq!(lit(&e), vec![0, 1, 2, 3, 4, 5, 6, 63]);
    assert_eq!(e.v_registers[0xF], 0);
}

#[test]
fn draw_wraps_past_the_bottom_edge() {
    // VA = 0, VB = 31, I = 0x208 (rows 0x80, 0x80): second row wraps to y = 0
    let e = run(&[0x6A, 0x00, 0x6B, 0x1F, 0xA2, 0x08, 0xDA, 0xB2, 0x80, 0x80], 4);
    assert_eq!(lit(&e), vec![0, 31 * SCREEN_WIDTH]);
}

#[test]
fn clear_screen_blanks_everything_after_draws() {
    let e = run(&[0xD0, 0x03, 0x61, 0x05, 0xD1, 0x12, 0x00, 0xE0], 4);
    assert!(e.get_display().iter().all(|&p| !p));
}

#[test]
fn draw_zero_rows_touches_nothing() {
    let e = run(&[0xD0, 0x00], 1);
    assert!(e.get_display().iter().all(|&p| !p));
    assert_eq!(e.v_registers[0xF], 0);
}
