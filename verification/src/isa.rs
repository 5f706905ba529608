//! The CHIP-8 instruction set: machine constants, opcode fields, and the
//! decoding of a 16-bit opcode into an instruction.

use vstd::prelude::*;

verus! {

/// Width of the monochrome display in pixels.
pub const SCREEN_WIDTH: usize = 64;

/// Height of the monochrome display in pixels.
pub const SCREEN_HEIGHT: usize = 32;

/// Number of addressable bytes of memory.
pub const RAM_SIZE: usize = 4096;

/// Number of general-purpose 8-bit registers (V0 through VF).
pub const NUM_REGISTERS: usize = 16;

/// Capacity of the call stack, in return addresses.
pub const STACK_SIZE: usize = 16;

/// Number of keys on the hexadecimal keypad.
pub const NUM_KEYS: usize = 16;

/// Address at which a loaded program starts; everything below is reserved.
pub const START_ADDRESS: u16 = 0x200;

/// Size of the built-in font table: 16 glyphs of 5 bytes each.
pub const FONT_TABLE_SIZE: usize = 80;

/// Largest program that fits between the start address and the end of memory.
pub const MAX_ROM_SIZE: usize = 3584;

/// Most significant 4-bit field of an opcode.
pub open spec fn nib1(op: u16) -> u16 {
    (op >> 12) & 0xF
}

/// Second 4-bit field of an opcode, conventionally the register index X.
pub open spec fn nib2(op: u16) -> u16 {
    (op >> 8) & 0xF
}

/// Third 4-bit field of an opcode, conventionally the register index Y.
pub open spec fn nib3(op: u16) -> u16 {
    (op >> 4) & 0xF
}

/// Least significant 4-bit field of an opcode.
pub open spec fn nib4(op: u16) -> u16 {
    op & 0xF
}

/// The low 12 bits of an opcode, used as a memory address.
pub open spec fn addr_of(op: u16) -> u16 {
    op & 0xFFF
}

/// The low byte of an opcode, used as an immediate operand.
pub open spec fn imm_of(op: u16) -> u8 {
    (op & 0xFF) as u8
}

/// One decoded CHIP-8 instruction. Register operands are 4-bit indices,
/// addresses are 12 bits, immediates are one byte.
pub enum Instr {
    /// 0x0000: no operation.
    Nop,
    /// 0x00E0: clear the framebuffer.
    ClearScreen,
    /// 0x00EE: pop a return address from the stack into the program counter.
    Return,
    /// 0x1NNN: jump to NNN.
    Jump(u16),
    /// 0x2NNN: push the current program counter, then jump to NNN.
    Call(u16),
    /// 0x3XNN: skip the next instruction if VX equals NN.
    SkipEqImm(u16, u8),
    /// 0x4XNN: skip the next instruction if VX differs from NN.
    SkipNeImm(u16, u8),
    /// 0x5XY0: skip the next instruction if VX equals VY.
    SkipEqReg(u16, u16),
    /// 0x6XNN: set VX to NN.
    SetImm(u16, u8),
    /// 0x7XNN: add NN to VX, wrapping, with no flag.
    AddImm(u16, u8),
    /// 0x8XY0: copy VY into VX.
    CopyReg(u16, u16),
    /// 0x8XY1: bitwise OR of VX and VY into VX.
    OrReg(u16, u16),
    /// 0x8XY2: bitwise AND of VX and VY into VX.
    AndReg(u16, u16),
    /// 0x8XY3: bitwise XOR of VX and VY into VX.
    XorReg(u16, u16),
    /// 0x8XY4: add VY to VX, wrapping; VF becomes the carry.
    AddReg(u16, u16),
    /// 0x8XY5: subtract VY from VX, wrapping; VF becomes 1 when no borrow.
    SubReg(u16, u16),
    /// 0x8XY6: shift VX right by one; VF receives the dropped bit.
    ShiftRight(u16),
    /// 0x8XY7: set VX to VY minus VX, wrapping; VF becomes 1 when no borrow.
    SubFrom(u16, u16),
    /// 0x8XYE: shift VX left by one, wrapping; VF receives the dropped bit.
    ShiftLeft(u16),
    /// 0x9XY0: skip the next instruction if VX differs from VY.
    SkipNeReg(u16, u16),
    /// 0xANNN: set the index register to NNN.
    SetIndex(u16),
    /// 0xBNNN: jump to V0 plus NNN.
    JumpOffset(u16),
    /// 0xCXNN: set VX to a random byte masked by NN.
    RandomMask(u16, u8),
    /// 0xDXYN: draw an N-row sprite from memory at the index register
    /// to screen position (VX, VY).
    Draw(u16, u16, u16),
    /// 0xEX9E: skip the next instruction if the key indexed by VX is pressed.
    SkipKeyPressed(u16),
    /// 0xEXA1: skip the next instruction if the key indexed by VX is released.
    SkipKeyReleased(u16),
    /// 0xFX07: copy the delay timer into VX.
    ReadDelay(u16),
    /// 0xFX0A: wait for a key press, storing the lowest pressed key in VX.
    WaitKey(u16),
    /// 0xFX15: set the delay timer from VX.
    SetDelay(u16),
    /// 0xFX18: set the sound timer from VX.
    SetSound(u16),
    /// 0xFX1E: add VX to the index register, wrapping at 16 bits.
    AddIndex(u16),
    /// 0xFX29: point the index register at the font glyph for digit VX.
    FontChar(u16),
    /// Any opcode that matches no pattern above: a decode failure.
    Invalid,
}

/// Decodes a 16-bit opcode by its four 4-bit fields, most specific
/// pattern first, exactly as the instruction table defines it.
pub open spec fn decode(op: u16) -> Instr {
    let d1 = nib1(op);
    let d2 = nib2(op);
    let d3 = nib3(op);
    let d4 = nib4(op);
    if d1 == 0 && d2 == 0 && d3 == 0 && d4 == 0 {
        Instr::Nop
    } else if d1 == 0 && d2 == 0 && d3 == 0xE && d4 == 0 {
        Instr::ClearScreen
    } else if d1 == 0 && d2 == 0 && d3 == 0xE && d4 == 0xE {
        Instr::Return
    } else if d1 == 1 {
        Instr::Jump(addr_of(op))
    } else if d1 == 2 {
        Instr::Call(addr_of(op))
    } else if d1 == 3 {
        Instr::SkipEqImm(d2, imm_of(op))
    } else if d1 == 4 {
        Instr::SkipNeImm(d2, imm_of(op))
    } else if d1 == 5 && d4 == 0 {
        Instr::SkipEqReg(d2, d3)
    } else if d1 == 6 {
        Instr::SetImm(d2, imm_of(op))
    } else if d1 == 7 {
        Instr::AddImm(d2, imm_of(op))
    } else if d1 == 8 && d4 == 0 {
        Instr::CopyReg(d2, d3)
    } else if d1 == 8 && d4 == 1 {
        Instr::OrReg(d2, d3)
    } else if d1 == 8 && d4 == 2 {
        Instr::AndReg(d2, d3)
    } else if d1 == 8 && d4 == 3 {
        Instr::XorReg(d2, d3)
    } else if d1 == 8 && d4 == 4 {
        Instr::AddReg(d2, d3)
    } else if d1 == 8 && d4 == 5 {
        Instr::SubReg(d2, d3)
    } else if d1 == 8 && d4 == 6 {
        Instr::ShiftRight(d2)
    } else if d1 == 8 && d4 == 7 {
        Instr::SubFrom(d2, d3)
    } else if d1 == 8 && d4 == 0xE {
        Instr::ShiftLeft(d2)
    } else if d1 == 9 && d4 == 0 {
        Instr::SkipNeReg(d2, d3)
    } else if d1 == 0xA {
        Instr::SetIndex(addr_of(op))
    } else if d1 == 0xB {
        Instr::JumpOffset(addr_of(op))
    } else if d1 == 0xC {
        Instr::RandomMask(d2, imm_of(op))
    } else if d1 == 0xD {
        Instr::Draw(d2, d3, d4)
    } else if d1 == 0xE && d3 == 9 && d4 == 0xE {
        Instr::SkipKeyPressed(d2)
    } else if d1 == 0xE && d3 == 0xA && d4 == 1 {
        Instr::SkipKeyReleased(d2)
    } else if d1 == 0xF && d3 == 0 && d4 == 7 {
        Instr::ReadDelay(d2)
    } else if d1 == 0xF && d3 == 0 && d4 == 0xA {
        Instr::WaitKey(d2)
    } else if d1 == 0xF && d3 == 1 && d4 == 5 {
        Instr::SetDelay(d2)
    } else if d1 == 0xF && d3 == 1 && d4 == 8 {
        Instr::SetSound(d2)
    } else if d1 == 0xF && d3 == 1 && d4 == 0xE {
        Instr::AddIndex(d2)
    } else if d1 == 0xF && d3 == 2 && d4 == 9 {
        Instr::FontChar(d2)
    } else {
        Instr::Invalid
    }
}

/// Every 4-bit opcode field is below 16, so it can index the register file
/// and the key matrix.
pub proof fn lemma_nibbles_bounded(op: u16)
    ensures
        nib1(op) < 16,
        nib2(op) < 16,
        nib3(op) < 16,
        nib4(op) < 16,
        addr_of(op) < 0x1000,
        (op & 0xFF) < 256,
{
    assert(((op >> 12) & 0xF) < 16 && ((op >> 8) & 0xF) < 16 && ((op >> 4) & 0xF) < 16 && (op
        & 0xF) < 16 && (op & 0xFFF) < 0x1000 && (op & 0xFF) < 256) by (bit_vector);
}

} // verus!
