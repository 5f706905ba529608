//! The interpreter's state: memory, registers, stack, keys, timers and the
//! framebuffer, together with its lifecycle operations.

use vstd::prelude::*;
use vstd::pervasive::VecAdditionalExecFns;
use crate::isa::{
    SCREEN_WIDTH, SCREEN_HEIGHT, RAM_SIZE, NUM_REGISTERS, STACK_SIZE, NUM_KEYS, START_ADDRESS,
    FONT_TABLE_SIZE, MAX_ROM_SIZE,
};

verus! {

/// The error conditions the interpreter reports instead of corrupting state.
#[derive(Clone, Copy, Debug, PartialEq, Eq, Structural)]
pub enum EmuError {
    /// A program longer than the memory from the start address to its end.
    RomTooLarge,
    /// A call past the stack's capacity.
    StackOverflow,
    /// A return with an empty stack.
    StackUnderflow,
    /// An opcode that matches no decode rule.
    InvalidOpcode,
    /// A key index outside the keypad, taken from a register at run time.
    IndexOutOfRange,
    /// An instruction fetch or a sprite read past the end of memory.
    MemoryOutOfRange,
}

/// The CHIP-8 virtual machine: all emulated hardware state, mutated only by
/// its own methods.
pub struct Emulator {
    /// Program counter: address of the next instruction.
    pub pc: u16,
    /// The 4096 bytes of memory; the font table lives at the bottom.
    pub ram: Vec<u8>,
    /// Monochrome framebuffer, row-major, 64 columns by 32 rows.
    pub screen: Vec<bool>,
    /// The sixteen general-purpose registers V0 through VF.
    pub v_registers: Vec<u8>,
    /// Index register, a memory pointer for indexed reads and sprite lookups.
    pub i_register: u16,
    /// Number of return addresses currently on the stack.
    pub stack_pointer: u16,
    /// The call stack: a fixed-capacity buffer of return addresses.
    pub stack: Vec<u16>,
    /// Pressed state of the sixteen hexadecimal keys.
    pub keys: Vec<bool>,
    /// Delay timer, decremented once per frame while nonzero.
    pub delay_timer: u8,
    /// Sound timer, decremented once per frame while nonzero; its last
    /// active tick emits the beep signal.
    pub sound_timer: u8,
}

impl Emulator {
    /// Well-formedness: every buffer has its fixed capacity and the stack
    /// pointer stays within the stack.
    pub open spec fn wf(self) -> bool {
        &&& self.ram@.len() == RAM_SIZE
        &&& self.screen@.len() == SCREEN_WIDTH * SCREEN_HEIGHT
        &&& self.v_registers@.len() == NUM_REGISTERS
        &&& self.stack@.len() == STACK_SIZE
        &&& self.keys@.len() == NUM_KEYS
        &&& self.stack_pointer <= STACK_SIZE
    }

    /// The state right after construction: everything zeroed, the program
    /// counter at the start address, and the font table in low memory.
    pub open spec fn is_initial(self) -> bool {
        &&& self.pc == START_ADDRESS
        &&& self.i_register == 0
        &&& self.stack_pointer == 0
        &&& self.delay_timer == 0
        &&& self.sound_timer == 0
        &&& self.ram@.len() == RAM_SIZE
        &&& forall|j: int| 0 <= j < FONT_TABLE_SIZE ==> self.ram@[j] == font_seq()[j]
        &&& forall|j: int| FONT_TABLE_SIZE <= j < RAM_SIZE ==> self.ram@[j] == 0
        &&& self.screen@.len() == SCREEN_WIDTH * SCREEN_HEIGHT
        &&& forall|p: int| 0 <= p < SCREEN_WIDTH * SCREEN_HEIGHT ==> !self.screen@[p]
        &&& self.v_registers@.len() == NUM_REGISTERS
        &&& forall|j: int| 0 <= j < NUM_REGISTERS ==> self.v_registers@[j] == 0
        &&& self.stack@.len() == STACK_SIZE
        &&& forall|j: int| 0 <= j < STACK_SIZE ==> self.stack@[j] == 0
        &&& self.keys@.len() == NUM_KEYS
        &&& forall|j: int| 0 <= j < NUM_KEYS ==> !self.keys@[j]
    }
}

/// Both states hold the same memory contents.
pub open spec fn same_ram(a: Emulator, b: Emulator) -> bool {
    b.ram@ == a.ram@
}

/// Both states hold the same framebuffer contents.
pub open spec fn same_screen(a: Emulator, b: Emulator) -> bool {
    b.screen@ == a.screen@
}

/// Both states hold the same register file.
pub open spec fn same_regs(a: Emulator, b: Emulator) -> bool {
    b.v_registers@ == a.v_registers@
}

/// Both states hold the same index register.
pub open spec fn same_index(a: Emulator, b: Emulator) -> bool {
    b.i_register == a.i_register
}

/// Both states hold the same call stack and stack pointer.
pub open spec fn same_stack(a: Emulator, b: Emulator) -> bool {
    b.stack_pointer == a.stack_pointer && b.stack@ == a.stack@
}

/// Both states hold the same key matrix.
pub open spec fn same_keys(a: Emulator, b: Emulator) -> bool {
    b.keys@ == a.keys@
}

/// Both states hold the same delay and sound timers.
pub open spec fn same_timers(a: Emulator, b: Emulator) -> bool {
    b.delay_timer == a.delay_timer && b.sound_timer == a.sound_timer
}

/// The two states agree on every observable component of the machine.
pub open spec fn same_state(a: Emulator, b: Emulator) -> bool {
    &&& b.pc == a.pc
    &&& same_ram(a, b)
    &&& same_screen(a, b)
    &&& same_regs(a, b)
    &&& same_index(a, b)
    &&& same_stack(a, b)
    &&& same_keys(a, b)
    &&& same_timers(a, b)
}

/// The built-in font: five bytes of bitmap for each of the sixteen
/// hexadecimal digits, 0 first.
pub open spec fn font_seq() -> Seq<u8> {
    seq![
        0xF0u8, 0x90, 0x90, 0x90, 0xF0,
        0x20, 0x60, 0x20, 0x20, 0x70,
        0xF0, 0x10, 0xF0, 0x80, 0xF0,
        0xF0, 0x10, 0xF0, 0x10, 0xF0,
        0x90, 0x90, 0xF0, 0x10, 0x10,
        0xF0, 0x80, 0xF0, 0x10, 0xF0,
        0xF0, 0x80, 0xF0, 0x90, 0xF0,
        0xF0, 0x10, 0x20, 0x40, 0x40,
        0xF0, 0x90, 0xF0, 0x90, 0xF0,
        0xF0, 0x90, 0xF0, 0x10, 0xF0,
        0xF0, 0x90, 0xF0, 0x90, 0x90,
        0xE0, 0x90, 0xE0, 0x90, 0xE0,
        0xF0, 0x80, 0x80, 0x80, 0xF0,
        0xE0, 0x90, 0x90, 0x90, 0xE0,
        0xF0, 0x80, 0xF0, 0x80, 0xF0,
        0xF0, 0x80, 0xF0, 0x80, 0x80,
    ]
}

/// Builds the executable font table; its contents are exactly `font_seq`.
fn font_table() -> (t: Vec<u8>)
    ensures
        t@ == font_seq(),
{
    let t: Vec<u8> = vec![
        0xF0u8, 0x90, 0x90, 0x90, 0xF0,
        0x20, 0x60, 0x20, 0x20, 0x70,
        0xF0, 0x10, 0xF0, 0x80, 0xF0,
        0xF0, 0x10, 0xF0, 0x10, 0xF0,
        0x90, 0x90, 0xF0, 0x10, 0x10,
        0xF0, 0x80, 0xF0, 0x10, 0xF0,
        0xF0, 0x80, 0xF0, 0x90, 0xF0,
        0xF0, 0x10, 0x20, 0x40, 0x40,
        0xF0, 0x90, 0xF0, 0x90, 0xF0,
        0xF0, 0x90, 0xF0, 0x10, 0xF0,
        0xF0, 0x90, 0xF0, 0x90, 0x90,
        0xE0, 0x90, 0xE0, 0x90, 0xE0,
        0xF0, 0x80, 0x80, 0x80, 0xF0,
        0xE0, 0x90, 0x90, 0x90, 0xE0,
        0xF0, 0x80, 0xF0, 0x80, 0xF0,
        0xF0, 0x80, 0xF0, 0x80, 0x80,
    ];
    proof {
        assert(t@ =~= font_seq());
    }
    t
}

/// A vector of `n` copies of `value`.
fn filled<T: Copy>(n: usize, value: T) -> (v: Vec<T>)
    ensures
        v@.len() == n,
        forall|j: int| 0 <= j < n ==> v@[j] == value,
{
    let mut v: Vec<T> = Vec::new();
    let mut i: usize = 0;
    while i < n
        invariant
            i <= n,
            v@.len() == i,
            forall|j: int| 0 <= j < i ==> v@[j] == value,
        decreases n - i,
    {
        v.push(value);
        i = i + 1;
    }
    v
}

impl Emulator {
    /// Constructs the machine in its initial state: zeroed buffers, the
    /// program counter at the start address, the font table installed.
    pub fn new() -> (e: Emulator)
        ensures
            e.wf(),
            e.is_initial(),
    {
        let mut ram = filled::<u8>(RAM_SIZE, 0);
        let font = font_table();
        let mut i: usize = 0;
        while i < FONT_TABLE_SIZE
            invariant
                i <= FONT_TABLE_SIZE,
                ram@.len() == RAM_SIZE,
                font@ == font_seq(),
                forall|j: int| 0 <= j < i ==> ram@[j] == font_seq()[j],
                forall|j: int| i <= j < RAM_SIZE ==> ram@[j] == 0,
            decreases FONT_TABLE_SIZE - i,
        {
            let b = font[i];
            ram.set(i, b);
            i = i + 1;
        }
        Emulator {
            pc: START_ADDRESS,
            ram,
            screen: filled::<bool>(SCREEN_WIDTH * SCREEN_HEIGHT, false),
            v_registers: filled::<u8>(NUM_REGISTERS, 0),
            i_register: 0,
            stack_pointer: 0,
            stack: filled::<u16>(STACK_SIZE, 0),
            keys: filled::<bool>(NUM_KEYS, false),
            delay_timer: 0,
            sound_timer: 0,
        }
    }

    /// Restores the exact post-construction state.
    pub fn reset(&mut self)
        ensures
            final(self).wf(),
            final(self).is_initial(),
    {
        *self = Emulator::new();
    }

    /// Copies a program into memory starting at the start address. A program
    /// larger than the remaining memory is rejected and nothing changes;
    /// no other state is reset either way.
    pub fn load_rom(&mut self, rom: &Vec<u8>) -> (r: Result<(), EmuError>)
        requires
            old(self).wf(),
        ensures
            final(self).wf(),
            rom@.len() > MAX_ROM_SIZE ==> r == Err::<(), EmuError>(EmuError::RomTooLarge)
                && same_state(*old(self), *final(self)),
            rom@.len() <= MAX_ROM_SIZE ==> {
                &&& r is Ok
                &&& forall|j: int|
                    0 <= j < rom@.len() ==> final(self).ram@[START_ADDRESS + j] == rom@[j]
                &&& forall|j: int|
                    0 <= j < RAM_SIZE && !(START_ADDRESS <= j < START_ADDRESS + rom@.len())
                        ==> final(self).ram@[j] == old(self).ram@[j]
                &&& final(self).pc == old(self).pc
                &&& same_screen(*old(self), *final(self))
                &&& same_regs(*old(self), *final(self))
                &&& same_index(*old(self), *final(self))
                &&& same_stack(*old(self), *final(self))
                &&& same_keys(*old(self), *final(self))
                &&& same_timers(*old(self), *final(self))
            },
    {
        if rom.len() > MAX_ROM_SIZE {
            return Err(EmuError::RomTooLarge);
        }
        let mut j: usize = 0;
        while j < rom.len()
            invariant
                j <= rom@.len(),
                rom@.len() <= MAX_ROM_SIZE,
                self.ram@.len() == RAM_SIZE,
                forall|k: int| 0 <= k < j ==> self.ram@[START_ADDRESS + k] == rom@[k],
                forall|k: int|
                    0 <= k < RAM_SIZE && !(START_ADDRESS <= k < START_ADDRESS + j)
                        ==> self.ram@[k] == old(self).ram@[k],
                self.pc == old(self).pc,
                same_screen(*old(self), *self),
                same_regs(*old(self), *self),
                same_index(*old(self), *self),
                same_stack(*old(self), *self),
                same_keys(*old(self), *self),
                same_timers(*old(self), *self),
            decreases rom@.len() - j,
        {
            let b = rom[j];
            self.ram.set(START_ADDRESS as usize + j, b);
            j = j + 1;
        }
        Ok(())
    }

    /// Records a key transition reported by the input device. The index must
    /// name one of the sixteen keys; anything else is a caller error.
    pub fn key_press(&mut self, key_index: usize, pressed: bool)
        requires
            old(self).wf(),
            key_index < NUM_KEYS,
        ensures
            final(self).wf(),
            final(self).keys@ == old(self).keys@.update(key_index as int, pressed),
            final(self).pc == old(self).pc,
            same_ram(*old(self), *final(self)),
            same_screen(*old(self), *final(self)),
            same_regs(*old(self), *final(self)),
            same_index(*old(self), *final(self)),
            same_stack(*old(self), *final(self)),
            same_timers(*old(self), *final(self)),
    {
        self.keys.set(key_index, pressed);
    }

    /// Read-only view of the framebuffer, row-major, 64 columns by 32 rows.
    pub fn get_display(&self) -> (display: &Vec<bool>)
        ensures
            display@ == self.screen@,
    {
        &self.screen
    }

    /// Advances both timers by one frame: each is decremented when nonzero.
    /// The result is the one-shot beep signal, raised exactly when the sound
    /// timer takes its last active tick (from 1 to 0).
    pub fn tick_timers(&mut self) -> (beep: bool)
        ensures
            final(self).delay_timer == if old(self).delay_timer > 0 {
                (old(self).delay_timer - 1) as u8
            } else {
                0u8
            },
            final(self).sound_timer == if old(self).sound_timer > 0 {
                (old(self).sound_timer - 1) as u8
            } else {
                0u8
            },
            beep == (old(self).sound_timer == 1),
            final(self).pc == old(self).pc,
            same_ram(*old(self), *final(self)),
            same_screen(*old(self), *final(self)),
            same_regs(*old(self), *final(self)),
            same_index(*old(self), *final(self)),
            same_stack(*old(self), *final(self)),
            same_keys(*old(self), *final(self)),
    {
        if self.delay_timer > 0 {
            self.delay_timer = self.delay_timer - 1;
        }
        let mut beep = false;
        if self.sound_timer > 0 {
            if self.sound_timer == 1 {
                beep = true;
            }
            self.sound_timer = self.sound_timer - 1;
        }
        beep
    }
}

} // verus!
