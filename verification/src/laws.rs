//! General laws of the interpreter, each proved from the transition relation
//! that the cycle's contracts state.

use vstd::prelude::*;
use crate::isa::{decode, nib2, nib3, nib4, SCREEN_WIDTH, SCREEN_HEIGHT, STACK_SIZE};
use crate::state::{Emulator, same_regs};
use crate::cycle::{instr_effect, step_error, fetched, has_pressed_key};
use crate::draw::{
    screen_after_draw, draw_collision, draw_turns_on, sprite_bit, pos_of, drawn_before,
};
use vstd::arithmetic::div_mod::lemma_mod_bound;

verus! {

/// One successful cycle from `pre` to `post` in which the random source
/// supplied the byte `rnd`.
pub open spec fn ok_step_with(pre: Emulator, post: Emulator, rnd: u8) -> bool {
    &&& step_error(pre) is None
    &&& instr_effect(pre, (pre.pc + 2) as u16, post, fetched(pre), rnd)
}

/// One successful cycle from `pre` to `post`: exactly what a call of `tick`
/// that returns without error does.
pub open spec fn ok_step(pre: Emulator, post: Emulator) -> bool {
    exists|rnd: u8| ok_step_with(pre, post, rnd)
}

/// A sequence of machine states connected by successful cycles.
pub open spec fn trace_ok(tr: Seq<Emulator>) -> bool {
    forall|k: int| 0 <= k < tr.len() - 1 ==> ok_step(#[trigger] tr[k], tr[k + 1])
}

/// The add-registers instruction sets VF to 1 exactly when the unsigned sum
/// of its two operands exceeds 255, and to 0 otherwise.
pub proof fn lemma_add_carry_flag(pre: Emulator, pc1: u16, post: Emulator, op: u16, rnd: u8)
    requires
        pre.wf(),
        instr_effect(pre, pc1, post, op, rnd),
        decode(op) is AddReg,
    ensures
        post.v_registers@[15] == (if pre.v_registers@[nib2(op) as int] as int
            + pre.v_registers@[nib3(op) as int] as int > 255 {
            1u8
        } else {
            0u8
        }),
{
    crate::isa::lemma_nibbles_bounded(op);
}

/// The subtract-registers instruction sets VF to 0 exactly when VX was
/// smaller than VY before the subtraction (a borrow), and to 1 otherwise.
pub proof fn lemma_sub_borrow_flag(pre: Emulator, pc1: u16, post: Emulator, op: u16, rnd: u8)
    requires
        pre.wf(),
        instr_effect(pre, pc1, post, op, rnd),
        decode(op) is SubReg,
    ensures
        post.v_registers@[15] == (if pre.v_registers@[nib2(op) as int]
            < pre.v_registers@[nib3(op) as int] {
            0u8
        } else {
            1u8
        }),
{
    crate::isa::lemma_nibbles_bounded(op);
}

/// Drawing the same sprite at the same position twice restores the
/// framebuffer exactly: each bit toggles the same pixel both times.
pub proof fn lemma_draw_self_inverse(
    s0: Seq<bool>,
    ram: Seq<u8>,
    index: int,
    vx: int,
    vy: int,
    n: int,
)
    ensures
        screen_after_draw(screen_after_draw(s0, ram, index, vx, vy, n), ram, index, vx, vy, n)
            == s0,
{
    let s1 = screen_after_draw(s0, ram, index, vx, vy, n);
    let s2 = screen_after_draw(s1, ram, index, vx, vy, n);
    assert forall|q: int| 0 <= q < s0.len() implies s2[q] == s0[q] by {
    }
    assert(s2 =~= s0);
}

/// A set sprite bit lands inside the framebuffer.
proof fn lemma_pos_in_screen(vx: int, vy: int, r: int, c: int, len: int)
    requires
        len == SCREEN_WIDTH * SCREEN_HEIGHT,
    ensures
        0 <= pos_of(vx, vy, r, c) < len,
{
    lemma_mod_bound(vx + c, SCREEN_WIDTH as int);
    lemma_mod_bound(vy + r, SCREEN_HEIGHT as int);
}

/// Repeating a draw reports a collision exactly when the first draw turned
/// some pixel on: those are the pixels the first pass left lit under the
/// sprite's set bits.
pub proof fn lemma_second_draw_collides(
    s0: Seq<bool>,
    ram: Seq<u8>,
    index: int,
    vx: int,
    vy: int,
    n: int,
)
    requires
        s0.len() == SCREEN_WIDTH * SCREEN_HEIGHT,
    ensures
        draw_collision(screen_after_draw(s0, ram, index, vx, vy, n), ram, index, vx, vy, n)
            == draw_turns_on(s0, ram, index, vx, vy, n),
{
    let s1 = screen_after_draw(s0, ram, index, vx, vy, n);
    if draw_collision(s1, ram, index, vx, vy, n) {
        let (r, c) = choose|r: int, c: int|
            #![trigger sprite_bit(ram, index, r, c)]
            0 <= r && 0 <= c < 8 && drawn_before(n, 0, r, c) && sprite_bit(ram, index, r, c)
                && s1[pos_of(vx, vy, r, c)];
        lemma_pos_in_screen(vx, vy, r, c, s0.len() as int);
        assert(s1[pos_of(vx, vy, r, c)] == !s0[pos_of(vx, vy, r, c)]);
        assert(draw_turns_on(s0, ram, index, vx, vy, n));
    }
    if draw_turns_on(s0, ram, index, vx, vy, n) {
        let (r, c) = choose|r: int, c: int|
            #![trigger sprite_bit(ram, index, r, c)]
            0 <= r < n && 0 <= c < 8 && sprite_bit(ram, index, r, c) && !s0[pos_of(vx, vy, r, c)];
        lemma_pos_in_screen(vx, vy, r, c, s0.len() as int);
        assert(drawn_before(n, 0, r, c));
        assert(s1[pos_of(vx, vy, r, c)]);
        assert(draw_collision(s1, ram, index, vx, vy, n));
    }
}

/// Executing the same draw instruction twice in a row restores the
/// framebuffer, and the second pass raises VF exactly when the first pass
/// turned some pixel on. The operand registers must not be VF itself, which
/// the first pass overwrites with its collision flag.
pub proof fn lemma_draw_twice_restores(
    pre: Emulator,
    mid: Emulator,
    post: Emulator,
    pc1: u16,
    pc2: u16,
    op: u16,
    r1: u8,
    r2: u8,
)
    requires
        pre.wf(),
        instr_effect(pre, pc1, mid, op, r1),
        instr_effect(mid, pc2, post, op, r2),
        decode(op) is Draw,
        nib2(op) != 15,
        nib3(op) != 15,
    ensures
        post.screen@ == pre.screen@,
        post.v_registers@[15] == (if draw_turns_on(
            pre.screen@,
            pre.ram@,
            pre.i_register as int,
            pre.v_registers@[nib2(op) as int] as int,
            pre.v_registers@[nib3(op) as int] as int,
            nib4(op) as int,
        ) {
            1u8
        } else {
            0u8
        }),
{
    crate::isa::lemma_nibbles_bounded(op);
    let x = nib2(op) as int;
    let y = nib3(op) as int;
    let n = nib4(op) as int;
    let vx = pre.v_registers@[x] as int;
    let vy = pre.v_registers@[y] as int;
    let idx = pre.i_register as int;
    assert(mid.v_registers@[x] == pre.v_registers@[x]);
    assert(mid.v_registers@[y] == pre.v_registers@[y]);
    lemma_draw_self_inverse(pre.screen@, pre.ram@, idx, vx, vy, n);
    lemma_second_draw_collides(pre.screen@, pre.ram@, idx, vx, vy, n);
}

/// A successful step preserves well-formedness: every buffer keeps its
/// fixed capacity and the stack pointer stays within the stack.
pub proof fn lemma_ok_step_wf(pre: Emulator, post: Emulator)
    requires
        pre.wf(),
        ok_step(pre, post),
    ensures
        post.wf(),
{
    let rnd = choose|rnd: u8| ok_step_with(pre, post, rnd);
    crate::isa::lemma_nibbles_bounded(fetched(pre));
}

/// Every state along a trace of successful steps is well-formed.
pub proof fn lemma_trace_wf(tr: Seq<Emulator>, j: int)
    requires
        trace_ok(tr),
        tr.len() > 0,
        tr[0].wf(),
        0 <= j < tr.len(),
    ensures
        tr[j].wf(),
    decreases j,
{
    if j > 0 {
        lemma_trace_wf(tr, j - 1);
        lemma_ok_step_wf(tr[j - 1], tr[j]);
    }
}

/// One successful step never disturbs a return address below the stack
/// pointer, and lowers the stack pointer by at most one.
pub proof fn lemma_step_preserves_deep_stack(pre: Emulator, post: Emulator, d: int)
    requires
        pre.wf(),
        ok_step(pre, post),
        0 <= d < pre.stack_pointer,
    ensures
        post.stack@[d] == pre.stack@[d],
        post.stack_pointer as int >= pre.stack_pointer as int - 1,
{
    let rnd = choose|rnd: u8| ok_step_with(pre, post, rnd);
}

/// Along a trace of successful steps whose stack pointer stays above depth
/// `d`, the return address stored at depth `d` never changes.
proof fn lemma_deep_slot_stable(tr: Seq<Emulator>, d: int, j: int)
    requires
        trace_ok(tr),
        tr[0].wf(),
        1 <= j < tr.len(),
        d >= 0,
        forall|k: int| 1 <= k < j ==> tr[k].stack_pointer as int > d,
    ensures
        tr[j].stack@[d] == tr[1].stack@[d],
    decreases j,
{
    if j > 1 {
        lemma_deep_slot_stable(tr, d, j - 1);
        lemma_trace_wf(tr, j - 1);
        lemma_step_preserves_deep_stack(tr[j - 1], tr[j], d);
    }
}

/// The stack is LIFO across nesting: after a subroutine call, once every
/// intermediate step stays inside the called frame (the stack pointer stays
/// above its depth at the call), the return that finally pops that frame
/// sets the program counter to exactly the address the call pushed — the
/// instruction after the call.
pub proof fn lemma_call_return_lifo(tr: Seq<Emulator>)
    requires
        tr.len() >= 3,
        trace_ok(tr),
        tr[0].wf(),
        decode(fetched(tr[0])) is Call,
        decode(fetched(tr[tr.len() - 2])) is Return,
        forall|k: int|
            1 <= k <= tr.len() - 2 ==> (#[trigger] tr[k].stack_pointer) as int
                > tr[0].stack_pointer as int,
        tr[tr.len() - 2].stack_pointer as int == tr[0].stack_pointer as int + 1,
    ensures
        tr[tr.len() - 1].pc == tr[0].pc + 2,
{
    let m = tr.len() - 1;
    let d = tr[0].stack_pointer as int;
    assert(ok_step(tr[0], tr[1]));
    let rnd0 = choose|rnd: u8| ok_step_with(tr[0], tr[1], rnd);
    assert(d < STACK_SIZE);
    assert(tr[1].stack@[d] == tr[0].pc + 2);
    lemma_deep_slot_stable(tr, d, m - 1);
    let before_ret = tr[m - 1];
    let after_ret = tr[m];
    assert(ok_step(before_ret, after_ret));
    let rnd1 = choose|rnd: u8| ok_step_with(before_ret, after_ret, rnd);
    assert(after_ret.pc == before_ret.stack@[d]);
}

/// While no key is pressed, the wait-key instruction leaves the program
/// counter on itself, so the same instruction is fetched again; on a cycle
/// where some key is pressed, execution moves past it.
pub proof fn lemma_wait_key_blocks(pre: Emulator, post: Emulator)
    requires
        ok_step(pre, post),
        decode(fetched(pre)) is WaitKey,
    ensures
        !has_pressed_key(pre.keys@) ==> post.pc == pre.pc && same_regs(pre, post),
        has_pressed_key(pre.keys@) ==> post.pc == pre.pc + 2,
{
    let rnd = choose|rnd: u8| ok_step_with(pre, post, rnd);
}

/// The clear-screen instruction yields an all-off framebuffer from any
/// machine state, whatever was drawn before.
pub proof fn lemma_clear_screen_blanks(pre: Emulator, post: Emulator)
    requires
        ok_step(pre, post),
        decode(fetched(pre)) is ClearScreen,
    ensures
        post.screen@.len() == SCREEN_WIDTH * SCREEN_HEIGHT,
        forall|p: int| 0 <= p < post.screen@.len() ==> !post.screen@[p],
{
    let rnd = choose|rnd: u8| ok_step_with(pre, post, rnd);
}

} // verus!
