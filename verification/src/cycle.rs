//! The fetch-decode-execute cycle: what one instruction does to the machine,
//! stated as a transition relation and proved of the executable step.

use vstd::prelude::*;
use vstd::pervasive::VecAdditionalExecFns;
use vstd::arithmetic::div_mod::lemma_mod_add_multiples_vanish;
use crate::isa::{
    RAM_SIZE, STACK_SIZE, NUM_KEYS, SCREEN_WIDTH, SCREEN_HEIGHT, Instr, decode, nib2,
    lemma_nibbles_bounded,
};
use crate::state::{
    Emulator, EmuError, same_ram, same_screen, same_regs, same_index, same_stack, same_keys,
    same_timers, same_state,
};
use crate::draw::{screen_after_draw, draw_collision, draw_sprite};

verus! {

/// The 16-bit opcode stored at the program counter: high byte first.
pub open spec fn fetched(pre: Emulator) -> u16 {
    ((pre.ram@[pre.pc as int] as u16) << 8u16) | (pre.ram@[pre.pc as int + 1] as u16)
}

/// 8-bit addition that wraps on overflow.
pub open spec fn wrap_add8(a: u8, b: u8) -> u8 {
    ((a + b) % 256) as u8
}

/// 8-bit subtraction that wraps on borrow.
pub open spec fn wrap_sub8(a: u8, b: u8) -> u8 {
    ((a - b) % 256) as u8
}

/// Whether any key of the keypad is currently pressed.
pub open spec fn has_pressed_key(keys: Seq<bool>) -> bool {
    exists|k: int| 0 <= k < keys.len() && keys[k]
}

/// The lowest pressed key index at or above `k`, or the keypad size when
/// none is pressed there.
pub open spec fn lowest_pressed_from(keys: Seq<bool>, k: int) -> int
    decreases keys.len() - k,
{
    if k < 0 || k >= keys.len() {
        keys.len() as int
    } else if keys[k] {
        k
    } else {
        lowest_pressed_from(keys, k + 1)
    }
}

/// The lowest pressed key index, or the keypad size when none is pressed.
pub open spec fn lowest_pressed(keys: Seq<bool>) -> int {
    lowest_pressed_from(keys, 0)
}

proof fn lemma_lowest_pressed_from(keys: Seq<bool>, s: int, k: int)
    requires
        0 <= s <= k < keys.len(),
        keys[k],
        forall|j: int| s <= j < k ==> !keys[j],
    ensures
        lowest_pressed_from(keys, s) == k,
    decreases k - s,
{
    if s < k {
        lemma_lowest_pressed_from(keys, s + 1, k);
    }
}

/// A pressed key below which every key is released is the lowest pressed key.
pub proof fn lemma_lowest_pressed(keys: Seq<bool>, k: int)
    requires
        0 <= k < keys.len(),
        keys[k],
        forall|j: int| 0 <= j < k ==> !keys[j],
    ensures
        lowest_pressed(keys) == k,
{
    lemma_lowest_pressed_from(keys, 0, k);
}

/// Everything but the program counter and the memory-and-keys frame is
/// unchanged.
pub open spec fn core_unchanged(pre: Emulator, post: Emulator) -> bool {
    &&& same_regs(pre, post)
    &&& same_screen(pre, post)
    &&& same_index(pre, post)
    &&& same_stack(pre, post)
    &&& same_timers(pre, post)
}

/// The effect of a skip instruction: the program counter moves past the next
/// instruction exactly when `cond` holds; nothing else changes.
pub open spec fn skip_effect(pre: Emulator, post: Emulator, pc1: u16, cond: bool) -> bool {
    &&& post.pc == pc1 + if cond {
        2int
    } else {
        0int
    }
    &&& core_unchanged(pre, post)
}

/// The effect of an instruction that only rewrites the register file.
pub open spec fn reg_write_effect(pre: Emulator, post: Emulator, pc1: u16, regs: Seq<u8>) -> bool {
    &&& post.pc == pc1
    &&& post.v_registers@ == regs
    &&& same_screen(pre, post)
    &&& same_index(pre, post)
    &&& same_stack(pre, post)
    &&& same_timers(pre, post)
}

/// The effect of an instruction that only rewrites the index register.
pub open spec fn index_write_effect(pre: Emulator, post: Emulator, pc1: u16, v: int) -> bool {
    &&& post.pc == pc1
    &&& post.i_register == v
    &&& same_regs(pre, post)
    &&& same_screen(pre, post)
    &&& same_stack(pre, post)
    &&& same_timers(pre, post)
}

/// The exact effect of executing opcode `op` from state `pre`, where `pc1` is
/// the program counter after the fetch (already advanced past `op`), `post`
/// is the state after execution and `rnd` is the byte the random source
/// supplied. This covers the successful executions; the failing ones are
/// described by `exec_error` and leave the state unchanged.
pub open spec fn instr_effect(pre: Emulator, pc1: u16, post: Emulator, op: u16, rnd: u8) -> bool {
    let rs = pre.v_registers@;
    &&& same_ram(pre, post)
    &&& same_keys(pre, post)
    &&& match decode(op) {
        Instr::Nop => post.pc == pc1 && core_unchanged(pre, post),
        Instr::ClearScreen => {
            &&& post.pc == pc1
            &&& post.screen@.len() == SCREEN_WIDTH * SCREEN_HEIGHT
            &&& forall|p: int| 0 <= p < post.screen@.len() ==> !post.screen@[p]
            &&& same_regs(pre, post)
            &&& same_index(pre, post)
            &&& same_stack(pre, post)
            &&& same_timers(pre, post)
        },
        Instr::Return => {
            &&& post.pc == pre.stack@[pre.stack_pointer - 1]
            &&& post.stack_pointer == pre.stack_pointer - 1
            &&& post.stack@ == pre.stack@
            &&& same_regs(pre, post)
            &&& same_screen(pre, post)
            &&& same_index(pre, post)
            &&& same_timers(pre, post)
        },
        Instr::Jump(a) => post.pc == a && core_unchanged(pre, post),
        Instr::Call(a) => {
            &&& post.pc == a
            &&& post.stack_pointer == pre.stack_pointer + 1
            &&& post.stack@ == pre.stack@.update(pre.stack_pointer as int, pc1)
            &&& same_regs(pre, post)
            &&& same_screen(pre, post)
            &&& same_index(pre, post)
            &&& same_timers(pre, post)
        },
        Instr::SkipEqImm(x, k) => skip_effect(pre, post, pc1, rs[x as int] == k),
        Instr::SkipNeImm(x, k) => skip_effect(pre, post, pc1, rs[x as int] != k),
        Instr::SkipEqReg(x, y) => skip_effect(pre, post, pc1, rs[x as int] == rs[y as int]),
        Instr::SkipNeReg(x, y) => skip_effect(pre, post, pc1, rs[x as int] != rs[y as int]),
        Instr::SetImm(x, k) => reg_write_effect(pre, post, pc1, rs.update(x as int, k)),
        Instr::AddImm(x, k) => reg_write_effect(
            pre,
            post,
            pc1,
            rs.update(x as int, wrap_add8(rs[x as int], k)),
        ),
        Instr::CopyReg(x, y) => reg_write_effect(pre, post, pc1, rs.update(x as int, rs[y as int])),
        Instr::OrReg(x, y) => reg_write_effect(
            pre,
            post,
            pc1,
            rs.update(x as int, rs[x as int] | rs[y as int]),
        ),
        Instr::AndReg(x, y) => reg_write_effect(
            pre,
            post,
            pc1,
            rs.update(x as int, rs[x as int] & rs[y as int]),
        ),
        Instr::XorReg(x, y) => reg_write_effect(
            pre,
            post,
            pc1,
            rs.update(x as int, rs[x as int] ^ rs[y as int]),
        ),
        Instr::AddReg(x, y) => reg_write_effect(
            pre,
            post,
            pc1,
            rs.update(x as int, wrap_add8(rs[x as int], rs[y as int])).update(
                15,
                if rs[x as int] + rs[y as int] > 255 {
                    1u8
                } else {
                    0u8
                },
            ),
        ),
        Instr::SubReg(x, y) => reg_write_effect(
            pre,
            post,
            pc1,
            rs.update(x as int, wrap_sub8(rs[x as int], rs[y as int])).update(
                15,
                if rs[x as int] >= rs[y as int] {
                    1u8
                } else {
                    0u8
                },
            ),
        ),
        Instr::ShiftRight(x) => reg_write_effect(
            pre,
            post,
            pc1,
            rs.update(x as int, (rs[x as int] / 2) as u8).update(15, (rs[x as int] % 2) as u8),
        ),
        Instr::SubFrom(x, y) => reg_write_effect(
            pre,
            post,
            pc1,
            rs.update(x as int, wrap_sub8(rs[y as int], rs[x as int])).update(
                15,
                if rs[y as int] >= rs[x as int] {
                    1u8
                } else {
                    0u8
                },
            ),
        ),
        Instr::ShiftLeft(x) => reg_write_effect(
            pre,
            post,
            pc1,
            rs.update(x as int, ((rs[x as int] * 2) % 256) as u8).update(
                15,
                (rs[x as int] / 128) as u8,
            ),
        ),
        Instr::SetIndex(a) => index_write_effect(pre, post, pc1, a as int),
        Instr::JumpOffset(a) => post.pc == rs[0] as int + a as int && core_unchanged(pre, post),
        Instr::RandomMask(x, k) => reg_write_effect(pre, post, pc1, rs.update(x as int, rnd & k)),
        Instr::Draw(x, y, n) => {
            let vx = rs[x as int] as int;
            let vy = rs[y as int] as int;
            let idx = pre.i_register as int;
            &&& post.pc == pc1
            &&& post.screen@ == screen_after_draw(pre.screen@, pre.ram@, idx, vx, vy, n as int)
            &&& post.v_registers@ == rs.update(
                15,
                if draw_collision(pre.screen@, pre.ram@, idx, vx, vy, n as int) {
                    1u8
                } else {
                    0u8
                },
            )
            &&& same_index(pre, post)
            &&& same_stack(pre, post)
            &&& same_timers(pre, post)
        },
        Instr::SkipKeyPressed(x) => skip_effect(pre, post, pc1, pre.keys@[rs[x as int] as int]),
        Instr::SkipKeyReleased(x) => skip_effect(pre, post, pc1, !pre.keys@[rs[x as int] as int]),
        Instr::ReadDelay(x) => reg_write_effect(
            pre,
            post,
            pc1,
            rs.update(x as int, pre.delay_timer),
        ),
        Instr::WaitKey(x) => if has_pressed_key(pre.keys@) {
            reg_write_effect(
                pre,
                post,
                pc1,
                rs.update(x as int, lowest_pressed(pre.keys@) as u8),
            )
        } else {
            post.pc == pc1 - 2 && core_unchanged(pre, post)
        },
        Instr::SetDelay(x) => {
            &&& post.pc == pc1
            &&& post.delay_timer == rs[x as int]
            &&& post.sound_timer == pre.sound_timer
            &&& same_regs(pre, post)
            &&& same_screen(pre, post)
            &&& same_index(pre, post)
            &&& same_stack(pre, post)
        },
        Instr::SetSound(x) => {
            &&& post.pc == pc1
            &&& post.sound_timer == rs[x as int]
            &&& post.delay_timer == pre.delay_timer
            &&& same_regs(pre, post)
            &&& same_screen(pre, post)
            &&& same_index(pre, post)
            &&& same_stack(pre, post)
        },
        Instr::AddIndex(x) => index_write_effect(
            pre,
            post,
            pc1,
            (pre.i_register as int + rs[x as int] as int) % 0x10000,
        ),
        Instr::FontChar(x) => index_write_effect(pre, post, pc1, rs[x as int] as int * 5),
        Instr::Invalid => false,
    }
}

/// The error, if any, that executing opcode `op` from state `pre` reports:
/// a decode failure, a stack fault, a sprite read past the end of memory, or
/// a key test with a register value that names no key. On these the machine
/// is left unchanged.
pub open spec fn exec_error(pre: Emulator, op: u16) -> Option<EmuError> {
    match decode(op) {
        Instr::Invalid => Some(EmuError::InvalidOpcode),
        Instr::Return => if pre.stack_pointer == 0 {
            Some(EmuError::StackUnderflow)
        } else {
            None
        },
        Instr::Call(_) => if pre.stack_pointer as int >= STACK_SIZE {
            Some(EmuError::StackOverflow)
        } else {
            None
        },
        Instr::Draw(_, _, n) => if pre.i_register as int + n as int > RAM_SIZE {
            Some(EmuError::MemoryOutOfRange)
        } else {
            None
        },
        Instr::SkipKeyPressed(x) => if pre.v_registers@[x as int] as int >= NUM_KEYS {
            Some(EmuError::IndexOutOfRange)
        } else {
            None
        },
        Instr::SkipKeyReleased(x) => if pre.v_registers@[x as int] as int >= NUM_KEYS {
            Some(EmuError::IndexOutOfRange)
        } else {
            None
        },
        _ => None,
    }
}

/// The error, if any, that one whole cycle from state `pre` reports: a fetch
/// past the end of memory, or whatever executing the fetched opcode reports.
pub open spec fn step_error(pre: Emulator) -> Option<EmuError> {
    if pre.pc as int + 1 >= RAM_SIZE {
        Some(EmuError::MemoryOutOfRange)
    } else {
        exec_error(pre, fetched(pre))
    }
}

/// Relies on rand::random::<u8>: draws one byte from the thread-local
/// generator. Any byte may come back, so nothing is promised of the value.
#[verifier::external_body]
fn random_byte() -> u8 {
    rand::random()
}

/// The lowest pressed key index, or the keypad size when no key is pressed.
fn lowest_pressed_key(keys: &Vec<bool>) -> (found: usize)
    requires
        keys@.len() == NUM_KEYS,
    ensures
        found <= NUM_KEYS,
        (found == NUM_KEYS) == !has_pressed_key(keys@),
        found < NUM_KEYS ==> found == lowest_pressed(keys@),
{
    let mut k: usize = 0;
    while k < NUM_KEYS
        invariant
            k <= NUM_KEYS,
            keys@.len() == NUM_KEYS,
            forall|j: int| 0 <= j < k ==> !keys@[j],
        decreases NUM_KEYS - k,
    {
        if keys[k] {
            proof {
                lemma_lowest_pressed(keys@, k as int);
            }
            return k;
        }
        k = k + 1;
    }
    proof {
        assert(!has_pressed_key(keys@));
    }
    NUM_KEYS
}

impl Emulator {
    /// Pushes a return address; the stack must have room.
    fn stack_push(&mut self, value_to_push: u16)
        requires
            old(self).wf(),
            old(self).stack_pointer < STACK_SIZE,
        ensures
            final(self).wf(),
            final(self).stack@ == old(self).stack@.update(
                old(self).stack_pointer as int,
                value_to_push,
            ),
            final(self).stack_pointer == old(self).stack_pointer + 1,
            final(self).pc == old(self).pc,
            same_ram(*old(self), *final(self)),
            same_screen(*old(self), *final(self)),
            same_regs(*old(self), *final(self)),
            same_index(*old(self), *final(self)),
            same_keys(*old(self), *final(self)),
            same_timers(*old(self), *final(self)),
    {
        let sp = self.stack_pointer as usize;
        self.stack.set(sp, value_to_push);
        self.stack_pointer = self.stack_pointer + 1;
    }

    /// Pops the most recently pushed return address; the stack must be
    /// nonempty.
    fn stack_pop(&mut self) -> (value: u16)
        requires
            old(self).wf(),
            old(self).stack_pointer > 0,
        ensures
            final(self).wf(),
            value == old(self).stack@[old(self).stack_pointer - 1],
            final(self).stack_pointer == old(self).stack_pointer - 1,
            final(self).stack@ == old(self).stack@,
            final(self).pc == old(self).pc,
            same_ram(*old(self), *final(self)),
            same_screen(*old(self), *final(self)),
            same_regs(*old(self), *final(self)),
            same_index(*old(self), *final(self)),
            same_keys(*old(self), *final(self)),
            same_timers(*old(self), *final(self)),
    {
        self.stack_pointer = self.stack_pointer - 1;
        self.stack[self.stack_pointer as usize]
    }

    /// Reads the two instruction bytes at the program counter, big-endian,
    /// and advances the program counter past them.
    fn fetch(&mut self) -> (op: u16)
        requires
            old(self).wf(),
            old(self).pc as int + 1 < RAM_SIZE,
        ensures
            final(self).wf(),
            op == fetched(*old(self)),
            final(self).pc == old(self).pc + 2,
            same_ram(*old(self), *final(self)),
            same_screen(*old(self), *final(self)),
            same_regs(*old(self), *final(self)),
            same_index(*old(self), *final(self)),
            same_stack(*old(self), *final(self)),
            same_keys(*old(self), *final(self)),
            same_timers(*old(self), *final(self)),
    {
        let first_byte = self.ram[self.pc as usize] as u16;
        let second_byte = self.ram[(self.pc + 1) as usize] as u16;
        let op = (first_byte << 8u16) | second_byte;
        self.pc = self.pc + 2;
        op
    }

    /// Performs one fetch-decode-execute step. On success the machine makes
    /// exactly the transition `instr_effect` describes for the fetched
    /// opcode and some byte from the random source; on failure the reported
    /// error is exactly what `step_error` names and the machine is left as
    /// it was.
    pub fn tick(&mut self) -> (r: Result<(), EmuError>)
        requires
            old(self).wf(),
        ensures
            final(self).wf(),
            (match step_error(*old(self)) {
                Some(e) => r == Err::<(), EmuError>(e) && same_state(*old(self), *final(self)),
                None => r is Ok && (exists|rnd: u8|
                    #[trigger] instr_effect(
                        *old(self),
                        (old(self).pc + 2) as u16,
                        *final(self),
                        fetched(*old(self)),
                        rnd,
                    )),
            }),
    {
        if self.pc as usize + 1 >= RAM_SIZE {
            return Err(EmuError::MemoryOutOfRange);
        }
        let pc0 = self.pc;
        let op = self.fetch();
        let rnd = random_byte();
        let result = self.execute_opcode(op, rnd);
        match result {
            Ok(_) => {
                proof {
                    assert(instr_effect(
                        *old(self),
                        (old(self).pc + 2) as u16,
                        *self,
                        fetched(*old(self)),
                        rnd,
                    ));
                }
                Ok(())
            },
            Err(e) => {
                self.pc = pc0;
                Err(e)
            },
        }
    }

    /// Decodes and executes one opcode; `rnd` is the byte the random source
    /// supplied for the random-mask instruction. The program counter has
    /// already been advanced past the opcode, and must leave room for one
    /// skip forward or one rewind back.
    pub fn execute_opcode(&mut self, op: u16, rnd: u8) -> (r: Result<(), EmuError>)
        requires
            old(self).wf(),
            2 <= old(self).pc,
            old(self).pc as int + 2 <= u16::MAX as int,
        ensures
            final(self).wf(),
            (match exec_error(*old(self), op) {
                Some(e) => r == Err::<(), EmuError>(e) && same_state(*old(self), *final(self)),
                None => r is Ok && instr_effect(*old(self), old(self).pc, *final(self), op, rnd),
            }),
    {
        proof {
            lemma_nibbles_bounded(op);
        }
        let d1 = (op >> 12) & 0xF;
        let d2 = (op >> 8) & 0xF;
        let d3 = (op >> 4) & 0xF;
        let d4 = op & 0xF;
        match (d1, d2, d3, d4) {
            // NOP
            (0, 0, 0, 0) => Ok(()),
            // CLS
            (0, 0, 0xE, 0) => {
                let mut p: usize = 0;
                while p < SCREEN_WIDTH * SCREEN_HEIGHT
                    invariant
                        old(self).wf(),
                        p <= SCREEN_WIDTH * SCREEN_HEIGHT,
                        self.screen@.len() == SCREEN_WIDTH * SCREEN_HEIGHT,
                        forall|q: int| 0 <= q < p ==> !self.screen@[q],
                        self.pc == old(self).pc,
                        same_ram(*old(self), *self),
                        same_regs(*old(self), *self),
                        same_index(*old(self), *self),
                        same_stack(*old(self), *self),
                        same_keys(*old(self), *self),
                        same_timers(*old(self), *self),
                    decreases SCREEN_WIDTH * SCREEN_HEIGHT - p,
                {
                    self.screen.set(p, false);
                    p = p + 1;
                }
                Ok(())
            },
            // RET
            (0, 0, 0xE, 0xE) => {
                if self.stack_pointer == 0 {
                    Err(EmuError::StackUnderflow)
                } else {
                    let return_address = self.stack_pop();
                    self.pc = return_address;
                    Ok(())
                }
            },
            // JMP NNN
            (1, _, _, _) => {
                self.pc = op & 0xFFF;
                Ok(())
            },
            // CALL NNN
            (2, _, _, _) => {
                if self.stack_pointer as usize >= STACK_SIZE {
                    Err(EmuError::StackOverflow)
                } else {
                    let return_address = self.pc;
                    self.stack_push(return_address);
                    self.pc = op & 0xFFF;
                    Ok(())
                }
            },
            // SKIP VX == NN
            (3, _, _, _) => {
                let x = d2 as usize;
                if self.v_registers[x] == (op & 0xFF) as u8 {
                    self.pc = self.pc + 2;
                }
                Ok(())
            },
            // SKIP VX != NN
            (4, _, _, _) => {
                let x = d2 as usize;
                if self.v_registers[x] != (op & 0xFF) as u8 {
                    self.pc = self.pc + 2;
                }
                Ok(())
            },
            // SKIP VX == VY
            (5, _, _, 0) => {
                let x = d2 as usize;
                let y = d3 as usize;
                if self.v_registers[x] == self.v_registers[y] {
                    self.pc = self.pc + 2;
                }
                Ok(())
            },
            // VX = NN
            (6, _, _, _) => {
                let x = d2 as usize;
                self.v_registers.set(x, (op & 0xFF) as u8);
                Ok(())
            },
            // VX += NN, no flag
            (7, _, _, _) => {
                let x = d2 as usize;
                let sum = self.v_registers[x] as u16 + (op & 0xFF);
                self.v_registers.set(x, (sum % 256) as u8);
                Ok(())
            },
            // VX = VY
            (8, _, _, 0) => {
                let x = d2 as usize;
                let y = d3 as usize;
                let vy = self.v_registers[y];
                self.v_registers.set(x, vy);
                Ok(())
            },
            // VX |= VY
            (8, _, _, 1) => {
                let x = d2 as usize;
                let y = d3 as usize;
                let v = self.v_registers[x] | self.v_registers[y];
                self.v_registers.set(x, v);
                Ok(())
            },
            // VX &= VY
            (8, _, _, 2) => {
                let x = d2 as usize;
                let y = d3 as usize;
                let v = self.v_registers[x] & self.v_registers[y];
                self.v_registers.set(x, v);
                Ok(())
            },
            // VX ^= VY
            (8, _, _, 3) => {
                let x = d2 as usize;
                let y = d3 as usize;
                let v = self.v_registers[x] ^ self.v_registers[y];
                self.v_registers.set(x, v);
                Ok(())
            },
            // VX += VY; VF = carry
            (8, _, _, 4) => {
                let x = d2 as usize;
                let y = d3 as usize;
                let a = self.v_registers[x];
                let b = self.v_registers[y];
                let sum = a as u16 + b as u16;
                self.v_registers.set(x, (sum % 256) as u8);
                self.v_registers.set(0xF, if sum > 255 { 1 } else { 0 });
                Ok(())
            },
            // VX -= VY; VF = 1 when no borrow
            (8, _, _, 5) => {
                let x = d2 as usize;
                let y = d3 as usize;
                let a = self.v_registers[x];
                let b = self.v_registers[y];
                let diff = (a as u16 + 256) - b as u16;
                proof {
                    lemma_mod_add_multiples_vanish(a - b, 256);
                }
                self.v_registers.set(x, (diff % 256) as u8);
                self.v_registers.set(0xF, if a >= b { 1 } else { 0 });
                Ok(())
            },
            // VX >>= 1; VF = dropped bit
            (8, _, _, 6) => {
                let x = d2 as usize;
                let a = self.v_registers[x];
                self.v_registers.set(x, a / 2);
                self.v_registers.set(0xF, a % 2);
                Ok(())
            },
            // VX = VY - VX; VF = 1 when no borrow
            (8, _, _, 7) => {
                let x = d2 as usize;
                let y = d3 as usize;
                let a = self.v_registers[x];
                let b = self.v_registers[y];
                let diff = (b as u16 + 256) - a as u16;
                proof {
                    lemma_mod_add_multiples_vanish(b - a, 256);
                }
                self.v_registers.set(x, (diff % 256) as u8);
                self.v_registers.set(0xF, if b >= a { 1 } else { 0 });
                Ok(())
            },
            // VX <<= 1; VF = dropped bit
            (8, _, _, 0xE) => {
                let x = d2 as usize;
                let a = self.v_registers[x];
                let doubled = a as u16 * 2;
                self.v_registers.set(x, (doubled % 256) as u8);
                self.v_registers.set(0xF, a / 128);
                Ok(())
            },
            // SKIP VX != VY
            (9, _, _, 0) => {
                let x = d2 as usize;
                let y = d3 as usize;
                if self.v_registers[x] != self.v_registers[y] {
                    self.pc = self.pc + 2;
                }
                Ok(())
            },
            // I = NNN
            (0xA, _, _, _) => {
                self.i_register = op & 0xFFF;
                Ok(())
            },
            // JMP V0 + NNN
            (0xB, _, _, _) => {
                self.pc = self.v_registers[0] as u16 + (op & 0xFFF);
                Ok(())
            },
            // VX = rand() & NN
            (0xC, _, _, _) => {
                let x = d2 as usize;
                self.v_registers.set(x, rnd & (op & 0xFF) as u8);
                Ok(())
            },
            // DRAW N rows at (VX, VY)
            (0xD, _, _, _) => {
                let x = d2 as usize;
                let y = d3 as usize;
                let n = d4;
                if self.i_register as usize + n as usize > RAM_SIZE {
                    Err(EmuError::MemoryOutOfRange)
                } else {
                    let vx = self.v_registers[x];
                    let vy = self.v_registers[y];
                    let collision = draw_sprite(
                        &mut self.screen,
                        &self.ram,
                        self.i_register,
                        vx,
                        vy,
                        n,
                    );
                    self.v_registers.set(0xF, if collision { 1 } else { 0 });
                    Ok(())
                }
            },
            // SKIP if key VX pressed
            (0xE, _, 9, 0xE) => {
                let x = d2 as usize;
                let key = self.v_registers[x] as usize;
                if key >= NUM_KEYS {
                    Err(EmuError::IndexOutOfRange)
                } else {
                    if self.keys[key] {
                        self.pc = self.pc + 2;
                    }
                    Ok(())
                }
            },
            // SKIP if key VX released
            (0xE, _, 0xA, 1) => {
                let x = d2 as usize;
                let key = self.v_registers[x] as usize;
                if key >= NUM_KEYS {
                    Err(EmuError::IndexOutOfRange)
                } else {
                    if !self.keys[key] {
                        self.pc = self.pc + 2;
                    }
                    Ok(())
                }
            },
            // VX = DT
            (0xF, _, 0, 7) => {
                let x = d2 as usize;
                let dt = self.delay_timer;
                self.v_registers.set(x, dt);
                Ok(())
            },
            // WAIT KEY: rewind until some key is pressed
            (0xF, _, 0, 0xA) => {
                let x = d2 as usize;
                let found = lowest_pressed_key(&self.keys);
                if found < NUM_KEYS {
                    self.v_registers.set(x, found as u8);
                } else {
                    self.pc = self.pc - 2;
                }
                Ok(())
            },
            // DT = VX
            (0xF, _, 1, 5) => {
                let x = d2 as usize;
                self.delay_timer = self.v_registers[x];
                Ok(())
            },
            // ST = VX
            (0xF, _, 1, 8) => {
                let x = d2 as usize;
                self.sound_timer = self.v_registers[x];
                Ok(())
            },
            // I += VX, wrapping at 16 bits
            (0xF, _, 1, 0xE) => {
                let x = d2 as usize;
                let sum = self.i_register as u32 + self.v_registers[x] as u32;
                self.i_register = (sum % 0x10000) as u16;
                Ok(())
            },
            // I = font glyph address of digit VX
            (0xF, _, 2, 9) => {
                let x = d2 as usize;
                self.i_register = self.v_registers[x] as u16 * 5;
                Ok(())
            },
            // no decode rule matches
            (_, _, _, _) => Err(EmuError::InvalidOpcode),
        }
    }
}

} // verus!
