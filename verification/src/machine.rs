//! The machine state: memory, registers, stack, timers, keypad and
//! framebuffer, with the operations that do not interpret instructions.

use vstd::prelude::*;
use crate::fault::LoadError;

verus! {

/// Number of addressable bytes.
pub const MEMORY_SIZE: usize = 4096;

/// Address at which programs are loaded and at which execution starts.
pub const START_ADDRESS: usize = 0x200;

/// Number of bytes of built-in glyph data.
pub const FONTSET_SIZE: usize = 80;

/// Address of the first glyph byte.
pub const FONTSET_START_ADDRESS: usize = 0x50;

/// Framebuffer width in pixels.
pub const CHIP8_WIDTH: usize = 64;

/// Framebuffer height in pixels.
pub const CHIP8_HEIGHT: usize = 32;

/// Number of call-stack levels.
pub const STACK_DEPTH: usize = 16;

/// The built-in glyphs for the hexadecimal digits 0 to F, five bytes each.
pub const FONTSET: [u8; 80] = [
    0xF0, 0x90, 0x90, 0x90, 0xF0,
    0x20, 0x60, 0x20, 0x20, 0x70,
    0xF0, 0x10, 0xF0, 0x80, 0xF0,
    0xF0, 0x10, 0xF0, 0x10, 0xF0,
    0x90, 0x90, 0xF0, 0x10, 0x10,
    0xF0, 0x80, 0xF0, 0x10, 0xF0,
    0xF0, 0x80, 0xF0, 0x90, 0xF0,
    0xF0, 0x10, 0x20, 0x40, 0x40,
    0xF0, 0x90, 0xF0, 0x90, 0xF0,
    0xF0, 0x90, 0xF0, 0x10, 0xF0,
    0xF0, 0x90, 0xF0, 0x90, 0x90,
    0xE0, 0x90, 0xE0, 0x90, 0xE0,
    0xF0, 0x80, 0x80, 0x80, 0xF0,
    0xE0, 0x90, 0x90, 0x90, 0xE0,
    0xF0, 0x80, 0xF0, 0x80, 0xF0,
    0xF0, 0x80, 0xF0, 0x80, 0x80,
];

/// The virtual machine. Every field is part of the observable state.
#[derive(Clone, Debug, PartialEq, Eq)]
pub struct Chip8 {
    /// General registers V0 to VF; VF doubles as the flag register.
    pub registers: [u8; 16],
    /// Byte-addressable memory.
    pub memory: [u8; 4096],
    /// The address register I.
    pub index: u16,
    /// Address of the next instruction to fetch.
    pub pc: u16,
    /// Return addresses of the calls in progress.
    pub stack: [u16; 16],
    /// Number of stack levels in use.
    pub sp: u8,
    /// Delay timer.
    pub dtimer: u8,
    /// Sound timer.
    pub stimer: u8,
    /// Whether each of the sixteen keys is held down.
    pub keypad: [bool; 16],
    /// Pixels in row-major order: the pixel at `(x, y)` is at `x + 64 * y`.
    pub video: [bool; 2048],
}

/// The mathematical value of a machine: each array as a sequence.
#[verifier::ext_equal]
pub ghost struct MachineState {
    pub registers: Seq<u8>,
    pub memory: Seq<u8>,
    pub index: u16,
    pub pc: u16,
    pub stack: Seq<u16>,
    pub sp: u8,
    pub dtimer: u8,
    pub stimer: u8,
    pub keypad: Seq<bool>,
    pub video: Seq<bool>,
}

impl View for Chip8 {
    type V = MachineState;

    open spec fn view(&self) -> MachineState {
        MachineState {
            registers: self.registers@,
            memory: self.memory@,
            index: self.index,
            pc: self.pc,
            stack: self.stack@,
            sp: self.sp,
            dtimer: self.dtimer,
            stimer: self.stimer,
            keypad: self.keypad@,
            video: self.video@,
        }
    }
}

impl MachineState {
    /// The sequences have the machine's sizes and the stack pointer counts at
    /// most sixteen levels.
    pub open spec fn wf(self) -> bool {
        &&& self.registers.len() == 16
        &&& self.memory.len() == 4096
        &&& self.stack.len() == 16
        &&& self.keypad.len() == 16
        &&& self.video.len() == 2048
        &&& self.sp <= 16
    }

    /// The state with `rom` copied to the load address and nothing else
    /// changed.
    pub open spec fn with_program(self, rom: Seq<u8>) -> MachineState {
        MachineState {
            memory: Seq::new(
                4096,
                |a: int|
                    if 0x200 <= a < 0x200 + rom.len() {
                        rom[a - 0x200]
                    } else {
                        self.memory[a]
                    },
            ),
            ..self
        }
    }

    /// The state with key `idx` set to `pressed`.
    pub open spec fn with_key(self, idx: int, pressed: bool) -> MachineState {
        MachineState { keypad: self.keypad.update(idx, pressed), ..self }
    }

    /// The state with both timers moved one step towards zero.
    pub open spec fn with_timers_ticked(self) -> MachineState {
        MachineState {
            dtimer: countdown(self.dtimer),
            stimer: countdown(self.stimer),
            ..self
        }
    }
}

/// One step of a timer: one less, but never below zero.
pub open spec fn countdown(t: u8) -> u8 {
    if t > 0 {
        (t - 1) as u8
    } else {
        0
    }
}

/// Whether a program of `len` bytes fits between the load address and the end
/// of memory.
pub open spec fn program_fits(len: nat) -> bool {
    0x200 + len <= 4096
}

/// The machine at creation: everything zero, except the glyphs in memory and
/// the program counter, which stands at the load address.
pub open spec fn initial_state() -> MachineState {
    MachineState {
        registers: Seq::new(16, |i: int| 0u8),
        memory: Seq::new(
            4096,
            |a: int|
                if 0x50 <= a < 0x50 + 80 {
                    FONTSET[a - 0x50]
                } else {
                    0u8
                },
        ),
        index: 0,
        pc: 0x200,
        stack: Seq::new(16, |i: int| 0u16),
        sp: 0,
        dtimer: 0,
        stimer: 0,
        keypad: Seq::new(16, |i: int| false),
        video: Seq::new(2048, |i: int| false),
    }
}

impl Chip8 {
    /// The invariant of a machine: at most sixteen stack levels are in use.
    /// A new machine has it and every operation keeps it.
    pub open spec fn wf(&self) -> bool {
        self.sp <= 16
    }

    /// Creates a machine with the glyphs installed and everything else zero.
    pub fn new() -> (chip: Chip8)
        ensures
            chip@ == initial_state(),
            chip.wf(),
    {
        let mut memory: [u8; 4096] = [0u8; 4096];
        let mut i: usize = 0;
        while i < FONTSET_SIZE
            invariant
                i <= 80,
                forall|a: int|
                    0 <= a < 4096 ==> memory[a] == (if 0x50 <= a < 0x50 + i {
                        FONTSET[a - 0x50]
                    } else {
                        0u8
                    }),
            decreases 80 - i,
        {
            memory[FONTSET_START_ADDRESS + i] = FONTSET[i];
            i += 1;
        }
        Chip8 {
            registers: [0u8; 16],
            memory,
            index: 0,
            pc: 0x200,
            stack: [0u16; 16],
            sp: 0,
            dtimer: 0,
            stimer: 0,
            keypad: [false; 16],
            video: [false; 2048],
        }
    }

    /// Copies a program to the load address.
    ///
    /// Succeeds exactly when the program fits; then memory outside the
    /// program's bytes, and every other part of the machine, is as before.
    /// Otherwise nothing changes.
    pub fn load_rom(&mut self, rom: &[u8]) -> (r: Result<(), LoadError>)
        ensures
            program_fits(rom@.len()) ==> r is Ok && final(self)@ == old(self)@.with_program(rom@),
            !program_fits(rom@.len()) ==> r == Err::<(), LoadError>(LoadError::OutOfCapacity)
                && *final(self) == *old(self),
    {
        let n: usize = rom.len();
        if n > MEMORY_SIZE - START_ADDRESS {
            return Err(LoadError::OutOfCapacity);
        }
        let mut i: usize = 0;
        while i < n
            invariant
                i <= n,
                n == rom@.len(),
                n <= 3584,
                forall|a: int|
                    0 <= a < 4096 ==> self.memory[a] == (if 0x200 <= a < 0x200 + i {
                        rom@[a - 0x200]
                    } else {
                        old(self).memory[a]
                    }),
                *self == (Chip8 { memory: self.memory, ..*old(self) }),
            decreases n - i,
        {
            self.memory[START_ADDRESS + i] = rom[i];
            i += 1;
        }
        Ok(())
    }

    /// The framebuffer, for the presentation layer to read.
    pub fn get_display(&self) -> (display: &[bool])
        ensures
            display@ == self@.video,
    {
        &self.video
    }

    /// Records that key `idx` went down or up.
    pub fn keypress(&mut self, idx: usize, pressed: bool)
        requires
            idx < 16,
        ensures
            final(self)@ == old(self)@.with_key(idx as int, pressed),
    {
        self.keypad[idx] = pressed;
    }

    /// Moves both timers one step towards zero.
    pub fn tick_timers(&mut self)
        ensures
            final(self)@ == old(self)@.with_timers_ticked(),
    {
        if self.dtimer > 0 {
            self.dtimer -= 1;
        }
        if self.stimer > 0 {
            self.stimer -= 1;
        }
    }
}

} // verus!
