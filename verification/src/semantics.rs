//! What each instruction does, as a function on machine states.
//!
//! Everything here is mathematics: the executable interpreter is proved to
//! compute exactly these functions.

use vstd::prelude::*;
use crate::fault::Fault;
use crate::instruction::{decode_spec, is_random_opcode, Instruction};
use crate::machine::MachineState;

verus! {

/// The value `v` reduced modulo 256.
pub open spec fn wrap8(v: int) -> u8 {
    (v % 256) as u8
}

/// The value `v` reduced modulo 65536.
pub open spec fn wrap16(v: int) -> u16 {
    (v % 65536) as u16
}

/// The flag value of a condition: 1 if it holds, else 0.
pub open spec fn flag(b: bool) -> u8 {
    if b {
        1
    } else {
        0
    }
}

/// Whether the bit of `bits` in column `col` is set, column 0 being the
/// most significant bit.
pub open spec fn sprite_bit(bits: u8, col: int) -> bool {
    0 <= col < 8 && bits & (0x80u8 >> (col as u8)) != 0
}

/// The column of the sprite that falls on pixel `p` when the sprite's left
/// edge is at `vx`, counted with wrap-around at the screen's width.
///
/// Opaque, to keep its arithmetic out of proofs that do not need it:
/// `lemma_sprite_col` and `lemma_sprite_col_unique` say what it is.
#[verifier::opaque]
pub open spec fn sprite_col(vx: u8, p: int) -> int {
    (p % 64 - vx) % 64
}

/// The row of the sprite that falls on pixel `p` when the sprite's top edge
/// is at `vy`, counted with wrap-around at the screen's height.
///
/// Opaque like `sprite_col`: `lemma_sprite_row` says what it is.
#[verifier::opaque]
pub open spec fn sprite_row(vy: u8, p: int) -> int {
    (p / 64 - vy) % 32
}

/// The pixel at `(x, y)`.
pub open spec fn pixel_index(x: int, y: int) -> int {
    x + 64 * y
}

/// Column `col` of a sprite whose left edge is at `vx` falls, in screen row
/// `y`, on the pixel at `((vx + col) mod 64, y)`.
pub proof fn lemma_sprite_col(vx: u8, col: int, y: int)
    requires
        0 <= col < 64,
        0 <= y < 32,
    ensures
        0 <= pixel_index((vx + col) % 64, y) < 2048,
        pixel_index((vx + col) % 64, y) / 64 == y,
        sprite_col(vx, pixel_index((vx + col) % 64, y)) == col,
{
    reveal(sprite_col);
}

/// A sprite column is one of 64, and two pixels of one screen row under
/// the same sprite column are the same pixel.
pub proof fn lemma_sprite_col_unique(vx: u8, p: int, q: int)
    requires
        0 <= p < 2048,
        0 <= q < 2048,
    ensures
        0 <= sprite_col(vx, p) < 64,
        p / 64 == q / 64 && sprite_col(vx, p) == sprite_col(vx, q) ==> p == q,
{
    reveal(sprite_col);
}

/// Row `row` of a sprite whose top edge is at `vy` falls on the pixels of
/// screen row `(vy + row) mod 32`, and on no others.
pub proof fn lemma_sprite_row(vy: u8, row: int, p: int)
    requires
        0 <= row < 32,
        0 <= p < 2048,
    ensures
        0 <= sprite_row(vy, p) < 32,
        sprite_row(vy, p) == row <==> p / 64 == (vy + row) % 32,
{
    reveal(sprite_row);
}

/// Whether some key is held down.
pub open spec fn any_key_pressed(keypad: Seq<bool>) -> bool {
    exists|k: int| 0 <= k < keypad.len() && keypad[k]
}

/// Whether `k` is a pressed key with no pressed key below it.
pub open spec fn is_lowest_pressed(keypad: Seq<bool>, k: int) -> bool {
    &&& 0 <= k < keypad.len()
    &&& keypad[k]
    &&& forall|j: int| 0 <= j < k ==> !keypad[j]
}

/// The lowest-numbered pressed key; meaningful when some key is pressed.
pub open spec fn lowest_pressed(keypad: Seq<bool>) -> int {
    choose|k: int| is_lowest_pressed(keypad, k)
}

impl MachineState {
    /// The value of register `x`.
    pub open spec fn reg(self, x: u8) -> u8 {
        self.registers[x as int]
    }

    /// The state with register `x` set to `v`.
    pub open spec fn with_reg(self, x: u8, v: u8) -> MachineState {
        MachineState { registers: self.registers.update(x as int, v), ..self }
    }

    /// The state with the program counter set to `pc`.
    pub open spec fn with_pc(self, pc: u16) -> MachineState {
        MachineState { pc, ..self }
    }

    /// The state with the index register set to `index`.
    pub open spec fn with_index(self, index: u16) -> MachineState {
        MachineState { index, ..self }
    }

    /// A conditional skip: if `cond` holds the program counter moves on by
    /// two, which must fit in its sixteen bits.
    pub open spec fn skip_if(self, cond: bool) -> Result<MachineState, Fault> {
        if !cond {
            Ok(self)
        } else if self.pc + 2 > 0xFFFF {
            Err(Fault::ProgramCounterOutOfRange)
        } else {
            Ok(self.with_pc((self.pc + 2) as u16))
        }
    }

    /// Whether the program counter addresses two bytes inside memory.
    pub open spec fn pc_in_range(self) -> bool {
        self.pc + 1 < 4096
    }

    /// The instruction word at the program counter: the byte there is the
    /// high byte, the next one the low byte.
    pub open spec fn fetch_word(self) -> u16 {
        (self.memory[self.pc as int] * 256 + self.memory[self.pc + 1]) as u16
    }

    /// The state after a fetch: the program counter has moved on by two.
    pub open spec fn after_fetch(self) -> MachineState {
        self.with_pc((self.pc + 2) as u16)
    }

    /// Whether the sprite of `rows` bytes at the index register, drawn with
    /// its top left corner at `(vx, vy)`, has a set bit on pixel `p`.
    ///
    /// Opaque, so that only proofs about single pixels pay for it: they
    /// reveal it.
    #[verifier::opaque]
    pub open spec fn sprite_covers(self, vx: u8, vy: u8, rows: u8, p: int) -> bool {
        let col: int = sprite_col(vx, p);
        let row: int = sprite_row(vy, p);
        col < 8 && row < rows && sprite_bit(self.memory[self.index + row], col)
    }

    /// Whether drawing the sprite turns off a pixel that was on.
    pub open spec fn draw_collides(self, vx: u8, vy: u8, rows: u8) -> bool {
        exists|p: int|
            0 <= p < 2048 && self.video[p] && #[trigger] self.sprite_covers(vx, vy, rows, p)
    }

    /// Drawing a sprite: every pixel under a set bit of the sprite is
    /// toggled, and `VF` tells whether a pixel went from on to off.
    pub open spec fn draw(self, x: u8, y: u8, rows: u8) -> Result<MachineState, Fault> {
        let vx: u8 = self.reg(x);
        let vy: u8 = self.reg(y);
        if rows > 0 && self.index + rows > 4096 {
            Err(Fault::MemoryOutOfRange)
        } else {
            Ok(
                MachineState {
                    video: Seq::new(
                        2048,
                        |p: int| self.video[p] != self.sprite_covers(vx, vy, rows, p),
                    ),
                    registers: self.registers.update(
                        0xF,
                        flag(self.draw_collides(vx, vy, rows)),
                    ),
                    ..self
                },
            )
        }
    }

    /// Storing `V0` to `Vx` at the index register.
    pub open spec fn store_registers(self, x: u8) -> Result<MachineState, Fault> {
        if self.index + x >= 4096 {
            Err(Fault::MemoryOutOfRange)
        } else {
            Ok(
                MachineState {
                    memory: Seq::new(
                        4096,
                        |a: int|
                            if self.index <= a <= self.index + x {
                                self.registers[a - self.index]
                            } else {
                                self.memory[a]
                            },
                    ),
                    ..self
                },
            )
        }
    }

    /// Loading `V0` to `Vx` from the index register.
    pub open spec fn load_registers(self, x: u8) -> Result<MachineState, Fault> {
        if self.index + x >= 4096 {
            Err(Fault::MemoryOutOfRange)
        } else {
            Ok(
                MachineState {
                    registers: Seq::new(
                        16,
                        |i: int|
                            if i <= x {
                                self.memory[self.index + i]
                            } else {
                                self.registers[i]
                            },
                    ),
                    ..self
                },
            )
        }
    }

    /// Storing the hundreds, tens and ones of `Vx` at the index register.
    pub open spec fn store_bcd(self, x: u8) -> Result<MachineState, Fault> {
        let v: u8 = self.reg(x);
        if self.index + 2 >= 4096 {
            Err(Fault::MemoryOutOfRange)
        } else {
            Ok(
                MachineState {
                    memory: self.memory.update(self.index as int, v / 100).update(
                        self.index + 1,
                        (v / 10) % 10,
                    ).update(self.index + 2, v % 10),
                    ..self
                },
            )
        }
    }

    /// Waiting for a key: with no key down the program counter goes back by
    /// two, so that the same instruction runs again; otherwise `Vx` receives
    /// the lowest pressed key.
    pub open spec fn wait_key(self, x: u8) -> Result<MachineState, Fault> {
        if any_key_pressed(self.keypad) {
            Ok(self.with_reg(x, lowest_pressed(self.keypad) as u8))
        } else if self.pc < 2 {
            Err(Fault::ProgramCounterOutOfRange)
        } else {
            Ok(self.with_pc((self.pc - 2) as u16))
        }
    }

    /// A skip that depends on key `Vx`, which must be one of the sixteen.
    pub open spec fn skip_if_key(self, x: u8, pressed: bool) -> Result<MachineState, Fault> {
        if self.reg(x) >= 16 {
            Err(Fault::KeyOutOfRange)
        } else {
            self.skip_if(self.keypad[self.reg(x) as int] == pressed)
        }
    }
}

/// The effect of one instruction on a state, or the fault it ends in.
///
/// `random` is the byte that the random-number instruction uses; no other
/// instruction looks at it. Where two registers are written, the writes
/// happen in the order given, so an instruction whose `x` is the flag
/// register ends with what the last write put there. A stack pointer above
/// sixteen, which no instruction produces, makes calls and returns stack
/// overflows.
pub open spec fn step(s: MachineState, ins: Instruction, random: u8) -> Result<
    MachineState,
    Fault,
> {
    match ins {
        Instruction::Nop => Ok(s),
        Instruction::ClearScreen => Ok(
            MachineState { video: Seq::new(2048, |p: int| false), ..s },
        ),
        Instruction::Return => if s.sp == 0 {
            Err(Fault::StackUnderflow)
        } else if s.sp > 16 {
            Err(Fault::StackOverflow)
        } else {
            Ok(MachineState { sp: (s.sp - 1) as u8, pc: s.stack[s.sp - 1], ..s })
        },
        Instruction::Jump { addr } => Ok(s.with_pc(addr)),
        Instruction::Call { addr } => if s.sp >= 16 {
            Err(Fault::StackOverflow)
        } else {
            Ok(
                MachineState {
                    stack: s.stack.update(s.sp as int, s.pc),
                    sp: (s.sp + 1) as u8,
                    pc: addr,
                    ..s
                },
            )
        },
        Instruction::SkipEqByte { x, byte } => s.skip_if(s.reg(x) == byte),
        Instruction::SkipNeByte { x, byte } => s.skip_if(s.reg(x) != byte),
        Instruction::SkipEqReg { x, y } => s.skip_if(s.reg(x) == s.reg(y)),
        Instruction::SkipNeReg { x, y } => s.skip_if(s.reg(x) != s.reg(y)),
        Instruction::LoadByte { x, byte } => Ok(s.with_reg(x, byte)),
        Instruction::AddByte { x, byte } => Ok(s.with_reg(x, wrap8(s.reg(x) + byte))),
        Instruction::Move { x, y } => Ok(s.with_reg(x, s.reg(y))),
        Instruction::Or { x, y } => Ok(s.with_reg(x, s.reg(x) | s.reg(y))),
        Instruction::And { x, y } => Ok(s.with_reg(x, s.reg(x) & s.reg(y))),
        Instruction::Xor { x, y } => Ok(s.with_reg(x, s.reg(x) ^ s.reg(y))),
        Instruction::AddCarry { x, y } => Ok(
            s.with_reg(x, wrap8(s.reg(x) + s.reg(y))).with_reg(
                0xF,
                flag(s.reg(x) + s.reg(y) > 255),
            ),
        ),
        Instruction::SubBorrow { x, y } => Ok(
            s.with_reg(x, wrap8(s.reg(x) - s.reg(y))).with_reg(0xF, flag(s.reg(x) >= s.reg(y))),
        ),
        Instruction::ShiftRight { x } => {
            let t: MachineState = s.with_reg(0xF, s.reg(x) % 2);
            Ok(t.with_reg(x, t.reg(x) / 2))
        },
        Instruction::SubReverse { x, y } => {
            let t: MachineState = s.with_reg(0xF, flag(s.reg(y) > s.reg(x)));
            Ok(t.with_reg(x, wrap8(t.reg(y) - t.reg(x))))
        },
        Instruction::ShiftLeft { x } => {
            let t: MachineState = s.with_reg(0xF, s.reg(x) / 128);
            Ok(t.with_reg(x, wrap8(t.reg(x) * 2)))
        },
        Instruction::LoadIndex { addr } => Ok(s.with_index(addr)),
        Instruction::JumpOffset { addr } => Ok(s.with_pc(wrap16(s.reg(0) + addr))),
        Instruction::Random { x, byte } => Ok(s.with_reg(x, random & byte)),
        Instruction::Draw { x, y, rows } => s.draw(x, y, rows),
        Instruction::SkipKeyPressed { x } => s.skip_if_key(x, true),
        Instruction::SkipKeyNotPressed { x } => s.skip_if_key(x, false),
        Instruction::LoadDelay { x } => Ok(s.with_reg(x, s.dtimer)),
        Instruction::WaitKey { x } => s.wait_key(x),
        Instruction::StoreDelay { x } => Ok(MachineState { dtimer: s.reg(x), ..s }),
        Instruction::StoreSound { x } => Ok(MachineState { stimer: s.reg(x), ..s }),
        Instruction::AddIndex { x } => Ok(s.with_index(wrap16(s.index + s.reg(x)))),
        Instruction::FontAddress { x } => Ok(s.with_index((0x50 + 5 * s.reg(x)) as u16)),
        Instruction::StoreBcd { x } => s.store_bcd(x),
        Instruction::StoreRegisters { x } => s.store_registers(x),
        Instruction::LoadRegisters { x } => s.load_registers(x),
    }
}

/// The effect of executing an instruction word: the word is decoded and the
/// instruction applied; a word that decodes to nothing is a fault that names
/// the word and the program counter.
pub open spec fn execute_spec(s: MachineState, opcode: u16, random: u8) -> Result<
    MachineState,
    Fault,
> {
    match decode_spec(opcode) {
        Some(ins) => step(s, ins, random),
        None => Err(Fault::UnknownOpcode { opcode, pc: s.pc }),
    }
}

/// Whether a machine that went from `pre` to `post` and reported `r` did
/// what `expected` says: on success it reached the expected state, on a
/// fault it reported that fault and changed nothing.
pub open spec fn realizes(
    pre: MachineState,
    post: MachineState,
    r: Result<(), Fault>,
    expected: Result<MachineState, Fault>,
) -> bool {
    match expected {
        Ok(s) => r is Ok && post == s,
        Err(f) => r == Err::<(), Fault>(f) && post == pre,
    }
}

/// A state together with the result that was reported on reaching it.
#[verifier::ext_equal]
pub ghost struct Outcome {
    pub state: MachineState,
    pub result: Result<(), Fault>,
}

/// The effect of one cycle: the word at the program counter is fetched and
/// executed, `random` being the byte for the random-number instruction.
///
/// With the program counter outside memory the cycle is a fault and the
/// state stays as it is. A fault in the execution leaves the state as it
/// was after the fetch.
pub open spec fn tick_spec(s: MachineState, random: u8) -> Outcome {
    if !s.pc_in_range() {
        Outcome { state: s, result: Err(Fault::ProgramCounterOutOfRange) }
    } else {
        match execute_spec(s.after_fetch(), s.fetch_word(), random) {
            Ok(t) => Outcome { state: t, result: Ok(()) },
            Err(f) => Outcome { state: s.after_fetch(), result: Err(f) },
        }
    }
}

/// Whether a cycle from `s` has the same outcome for every random byte:
/// that is so unless the word at the program counter is the random-number
/// instruction.
pub open spec fn tick_is_deterministic(s: MachineState) -> bool {
    !s.pc_in_range() || !is_random_opcode(s.fetch_word())
}

/// The effect of as many cycles as `randoms` has bytes, the cycle numbered
/// `i` using `randoms[i]`, and ending early at the first fault.
pub open spec fn run_cycles(s: MachineState, randoms: Seq<u8>) -> Outcome
    decreases randoms.len(),
{
    if randoms.len() == 0 {
        Outcome { state: s, result: Ok(()) }
    } else {
        let before: Outcome = run_cycles(s, randoms.drop_last());
        if before.result is Err {
            before
        } else {
            tick_spec(before.state, randoms.last())
        }
    }
}

/// The effect of one display frame: one cycle for each byte of `randoms`
/// runs, and if none of them ends in a fault the timers move one step.
pub open spec fn frame_spec(s: MachineState, randoms: Seq<u8>) -> Outcome {
    let ran: Outcome = run_cycles(s, randoms);
    if ran.result is Err {
        ran
    } else {
        Outcome { state: ran.state.with_timers_ticked(), result: Ok(()) }
    }
}

} // verus!
