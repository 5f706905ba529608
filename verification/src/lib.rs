//! A verified CHIP-8 interpreter: fixed memory, sixteen registers, a call
//! stack, two frame timers, a hexadecimal keypad and a monochrome
//! framebuffer with XOR sprite drawing. Every instruction's effect on the
//! machine state is stated in the contracts and proved.

mod cycle;
mod draw;
mod isa;
mod laws;
mod state;

pub use isa::{
    SCREEN_WIDTH, SCREEN_HEIGHT, RAM_SIZE, NUM_REGISTERS, STACK_SIZE, NUM_KEYS, START_ADDRESS,
    FONT_TABLE_SIZE, MAX_ROM_SIZE, Instr, decode, nib1, nib2, nib3, nib4, addr_of, imm_of,
    lemma_nibbles_bounded,
};
pub use state::{
    Emulator, EmuError, font_seq, same_ram, same_screen, same_regs, same_index, same_stack,
    same_keys, same_timers, same_state,
};
pub use cycle::{
    fetched, wrap_add8, wrap_sub8, has_pressed_key, lowest_pressed, instr_effect, exec_error,
    step_error, core_unchanged, skip_effect, reg_write_effect, index_write_effect,
    lemma_lowest_pressed,
};
pub use draw::{
    pos_of, sprite_bit, drawn_before, hits_prefix, draw_hits, screen_after_partial,
    screen_after_draw, collision_prefix, draw_collision, draw_turns_on, draw_sprite,
    lemma_pos_injective,
};
pub use laws::{
    ok_step_with, ok_step, trace_ok, lemma_ok_step_wf, lemma_trace_wf, lemma_add_carry_flag,
    lemma_sub_borrow_flag,
    lemma_draw_self_inverse, lemma_second_draw_collides, lemma_draw_twice_restores,
    lemma_step_preserves_deep_stack, lemma_call_return_lifo, lemma_wait_key_blocks,
    lemma_clear_screen_blanks,
};
