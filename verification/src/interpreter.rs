//! The interpreter: fetching an instruction word and executing it.

use vstd::prelude::*;
use rand::Rng;
use crate::fault::Fault;
use crate::instruction::{decode, is_random, is_random_opcode, Instruction};
use crate::machine::{Chip8, MachineState, MEMORY_SIZE};
use crate::semantics::{
    any_key_pressed,
    lemma_sprite_col,
    lemma_sprite_col_unique,
    lemma_sprite_row,
    pixel_index,
    tick_is_deterministic,
    tick_spec,
    Outcome,
    execute_spec,
    is_lowest_pressed,
    lowest_pressed,
    realizes,
    sprite_bit,
    sprite_col,
    sprite_row,
    step,
};

verus! {

/// Draws a byte from `rand::rng()`, the generator local to the thread, with
/// `Rng::random`. Nothing is claimed of the byte: each call may return any
/// value. The generator aborts the program if the operating system gives it
/// no seed.
#[verifier::external_body]
fn random_byte() -> (r: u8) {
    rand::rng().random()
}

/// Whether pixel `p` lies in screen row `y` under a set bit of `bits`, the
/// left edge of `bits` being at `vx`.
spec fn row_covers(bits: u8, vx: u8, y: int, p: int) -> bool {
    p / 64 == y && sprite_bit(bits, sprite_col(vx, p))
}

/// A pressed key with none below it is the lowest pressed key.
proof fn lemma_lowest_pressed(keypad: Seq<bool>, k: int)
    requires
        is_lowest_pressed(keypad, k),
    ensures
        any_key_pressed(keypad),
        lowest_pressed(keypad) == k,
{
    let c: int = lowest_pressed(keypad);
    assert(is_lowest_pressed(keypad, c));
    if c < k {
        assert(!keypad[c]);
    }
    if k < c {
        assert(!keypad[k]);
    }
}

/// Toggles the pixels of screen row `y` that lie under the set bits of
/// `bits`, and tells whether one of them was on.
fn draw_row(video: &mut [bool; 2048], bits: u8, vx: u8, y: usize) -> (collision: bool)
    requires
        y < 32,
    ensures
        forall|p: int|
            0 <= p < 2048 ==> final(video)[p] == (old(video)[p] != row_covers(
                bits,
                vx,
                y as int,
                p,
            )),
        collision == (exists|p: int|
            0 <= p < 2048 && old(video)[p] && #[trigger] row_covers(bits, vx, y as int, p)),
{
    let mut collision: bool = false;
    let mut c: u8 = 0;
    while c < 8
        invariant
            c <= 8,
            y < 32,
            forall|p: int|
                0 <= p < 2048 ==> video[p] == (old(video)[p] != (row_covers(bits, vx, y as int, p)
                    && sprite_col(vx, p) < c)),
            collision == (exists|p: int|
                0 <= p < 2048 && old(video)[p] && #[trigger] row_covers(bits, vx, y as int, p)
                    && sprite_col(vx, p) < c),
        decreases 8 - c,
    {
        if bits & (0x80u8 >> c) != 0 {
            let x: usize = (vx as usize + c as usize) % 64;
            let idx: usize = x + 64 * y;
            proof {
                lemma_sprite_col(vx, c as int, y as int);
                assert(idx == pixel_index((vx + c) % 64, y as int));
                assert(row_covers(bits, vx, y as int, idx as int));
                assert forall|p: int| 0 <= p < 2048 && p != idx implies !(row_covers(
                    bits,
                    vx,
                    y as int,
                    p,
                ) && sprite_col(vx, p) == c) by {
                    lemma_sprite_col_unique(vx, p, idx as int);
                }
            }
            collision = collision || video[idx];
            video[idx] = !video[idx];
        }
        c += 1;
    }
    collision
}

impl Chip8 {
    /// Reads the instruction word at the program counter and moves the
    /// program counter past it.
    pub fn fetch(&mut self) -> (word: u16)
        requires
            old(self)@.pc_in_range(),
        ensures
            word == old(self)@.fetch_word(),
            final(self)@ == old(self)@.after_fetch(),
    {
        let hi: u16 = self.memory[self.pc as usize] as u16;
        let lo: u16 = self.memory[(self.pc + 1) as usize] as u16;
        assert((hi << 8) | lo == hi * 256 + lo) by (bit_vector)
            requires
                hi < 256,
                lo < 256,
        ;
        self.pc += 2;
        (hi << 8) | lo
    }

    /// Writes `v` to register `x`.
    fn set_reg(&mut self, x: u8, v: u8)
        requires
            x < 16,
        ensures
            final(self)@ == old(self)@.with_reg(x, v),
    {
        self.registers[x as usize] = v;
    }

    /// Sets the program counter.
    fn set_pc(&mut self, pc: u16)
        ensures
            final(self)@ == old(self)@.with_pc(pc),
    {
        self.pc = pc;
    }

    /// Sets the index register.
    fn set_index(&mut self, index: u16)
        ensures
            final(self)@ == old(self)@.with_index(index),
    {
        self.index = index;
    }

    /// Sets the delay timer.
    fn set_delay(&mut self, t: u8)
        ensures
            final(self)@ == (MachineState { dtimer: t, ..old(self)@ }),
    {
        self.dtimer = t;
    }

    /// Sets the sound timer.
    fn set_sound(&mut self, t: u8)
        ensures
            final(self)@ == (MachineState { stimer: t, ..old(self)@ }),
    {
        self.stimer = t;
    }

    /// Moves the program counter past the next instruction if `cond` holds.
    fn skip_if(&mut self, cond: bool) -> (r: Result<(), Fault>)
        ensures
            realizes(old(self)@, final(self)@, r, old(self)@.skip_if(cond)),
    {
        if cond {
            if self.pc > 0xFFFD {
                return Err(Fault::ProgramCounterOutOfRange);
            }
            self.pc += 2;
        }
        Ok(())
    }

    /// Skips the next instruction if key `Vx` is in the state `pressed`.
    fn skip_if_key(&mut self, x: u8, pressed: bool) -> (r: Result<(), Fault>)
        requires
            x < 16,
        ensures
            realizes(old(self)@, final(self)@, r, old(self)@.skip_if_key(x, pressed)),
    {
        let key: u8 = self.registers[x as usize];
        if key >= 16 {
            return Err(Fault::KeyOutOfRange);
        }
        let down: bool = self.keypad[key as usize];
        self.skip_if(down == pressed)
    }

    /// Draws the sprite of `rows` bytes at the index register at `(Vx, Vy)`.
    fn draw_sprite(&mut self, x: u8, y: u8, rows: u8) -> (r: Result<(), Fault>)
        requires
            x < 16,
            y < 16,
            rows < 16,
        ensures
            realizes(old(self)@, final(self)@, r, old(self)@.draw(x, y, rows)),
            final(self).sp == old(self).sp,
    {
        if rows > 0 && self.index as usize + rows as usize > MEMORY_SIZE {
            return Err(Fault::MemoryOutOfRange);
        }
        let vx: u8 = self.registers[x as usize];
        let vy: u8 = self.registers[y as usize];
        let ghost s0: MachineState = self@;
        let mut flipped: bool = false;
        let mut row: u8 = 0;
        proof {
            assert forall|p: int| 0 <= p < 2048 implies 0 <= #[trigger] sprite_row(vy, p) by {
                lemma_sprite_row(vy, 0, p);
            }
        }
        while row < rows
            invariant
                row <= rows,
                rows < 16,
                rows > 0 ==> s0.index + rows <= 4096,
                s0 == old(self)@,
                self@ == (MachineState { video: self.video@, ..s0 }),
                forall|p: int|
                    0 <= p < 2048 ==> self.video[p] == (s0.video[p] != (s0.sprite_covers(
                        vx,
                        vy,
                        rows,
                        p,
                    ) && sprite_row(vy, p) < row)),
                flipped == (exists|p: int|
                    0 <= p < 2048 && s0.video[p] && #[trigger] s0.sprite_covers(vx, vy, rows, p)
                        && sprite_row(vy, p) < row),
            decreases rows - row,
        {
            let bits: u8 = self.memory[self.index as usize + row as usize];
            let line: usize = (vy as usize + row as usize) % 32;
            let ghost before: Seq<bool> = self.video@;
            let hit: bool = draw_row(&mut self.video, bits, vx, line);
            proof {
                assert forall|p: int| 0 <= p < 2048 implies (row_covers(bits, vx, line as int, p)
                    <==> (s0.sprite_covers(vx, vy, rows, p) && sprite_row(vy, p) == row)) by {
                    reveal(MachineState::sprite_covers);
                    lemma_sprite_row(vy, row as int, p);
                }
                if hit {
                    let w: int = choose|p: int|
                        0 <= p < 2048 && before[p] && #[trigger] row_covers(
                            bits,
                            vx,
                            line as int,
                            p,
                        );
                    assert(s0.video[w] && s0.sprite_covers(vx, vy, rows, w) && sprite_row(vy, w)
                        < row + 1);
                }
                if flipped {
                    let w: int = choose|p: int|
                        0 <= p < 2048 && s0.video[p] && #[trigger] s0.sprite_covers(
                            vx,
                            vy,
                            rows,
                            p,
                        ) && sprite_row(vy, p) < row;
                    assert(s0.video[w] && s0.sprite_covers(vx, vy, rows, w) && sprite_row(vy, w)
                        < row + 1);
                }
                if !hit && !flipped {
                    assert forall|p: int|
                        0 <= p < 2048 && s0.video[p] && #[trigger] s0.sprite_covers(
                            vx,
                            vy,
                            rows,
                            p,
                        ) implies !(sprite_row(vy, p) < row + 1) by {
                        if sprite_row(vy, p) == row {
                            assert(before[p] == s0.video[p]);
                            assert(row_covers(bits, vx, line as int, p));
                        }
                    }
                }
            }
            flipped = flipped || hit;
            row += 1;
        }
        proof {
            assert forall|p: int| 0 <= p < 2048 && s0.sprite_covers(vx, vy, rows, p) implies sprite_row(
                vy,
                p,
            ) < rows by {
                reveal(MachineState::sprite_covers);
            }
            assert(flipped == s0.draw_collides(vx, vy, rows));
        }
        self.registers[0xF] = if flipped {
            1
        } else {
            0
        };
        proof {
            match s0.draw(x, y, rows) {
                Ok(t) => assert(self@ =~= t),
                Err(_) => {},
            }
        }
        Ok(())
    }

    /// Stores the decimal digits of `Vx` at the index register.
    fn store_bcd(&mut self, x: u8) -> (r: Result<(), Fault>)
        requires
            x < 16,
        ensures
            realizes(old(self)@, final(self)@, r, old(self)@.store_bcd(x)),
            final(self).sp == old(self).sp,
    {
        let base: usize = self.index as usize;
        if base + 2 >= MEMORY_SIZE {
            return Err(Fault::MemoryOutOfRange);
        }
        let v: u8 = self.registers[x as usize];
        self.memory[base] = v / 100;
        self.memory[base + 1] = (v / 10) % 10;
        self.memory[base + 2] = v % 10;
        Ok(())
    }

    /// Stores `V0` to `Vx` at the index register.
    fn store_registers(&mut self, x: u8) -> (r: Result<(), Fault>)
        requires
            x < 16,
        ensures
            realizes(old(self)@, final(self)@, r, old(self)@.store_registers(x)),
            final(self).sp == old(self).sp,
    {
        let base: usize = self.index as usize;
        let last: usize = x as usize;
        if base + last >= MEMORY_SIZE {
            return Err(Fault::MemoryOutOfRange);
        }
        let mut i: usize = 0;
        while i <= last
            invariant
                i <= last + 1,
                last < 16,
                base == old(self).index,
                base + last < 4096,
                *self == (Chip8 { memory: self.memory, ..*old(self) }),
                forall|a: int|
                    0 <= a < 4096 ==> self.memory[a] == (if base <= a < base + i {
                        old(self).registers[a - base]
                    } else {
                        old(self).memory[a]
                    }),
            decreases last + 1 - i,
        {
            self.memory[base + i] = self.registers[i];
            i += 1;
        }
        proof {
            match old(self)@.store_registers(x) {
                Ok(t) => assert(self@ =~= t),
                Err(_) => {},
            }
        }
        Ok(())
    }

    /// Loads `V0` to `Vx` from the index register.
    fn load_registers(&mut self, x: u8) -> (r: Result<(), Fault>)
        requires
            x < 16,
        ensures
            realizes(old(self)@, final(self)@, r, old(self)@.load_registers(x)),
            final(self).sp == old(self).sp,
    {
        let base: usize = self.index as usize;
        let last: usize = x as usize;
        if base + last >= MEMORY_SIZE {
            return Err(Fault::MemoryOutOfRange);
        }
        let mut i: usize = 0;
        while i <= last
            invariant
                i <= last + 1,
                last < 16,
                base == old(self).index,
                base + last < 4096,
                *self == (Chip8 { registers: self.registers, ..*old(self) }),
                forall|k: int|
                    0 <= k < 16 ==> self.registers[k] == (if k < i {
                        old(self).memory[base + k]
                    } else {
                        old(self).registers[k]
                    }),
            decreases last + 1 - i,
        {
            self.registers[i] = self.memory[base + i];
            i += 1;
        }
        proof {
            match old(self)@.load_registers(x) {
                Ok(t) => assert(self@ =~= t),
                Err(_) => {},
            }
        }
        Ok(())
    }

    /// Puts the lowest pressed key in `Vx`, or, with no key down, moves the
    /// program counter back to the instruction.
    fn wait_key(&mut self, x: u8) -> (r: Result<(), Fault>)
        requires
            x < 16,
        ensures
            realizes(old(self)@, final(self)@, r, old(self)@.wait_key(x)),
            final(self).sp == old(self).sp,
    {
        let mut k: usize = 0;
        while k < 16
            invariant
                k <= 16,
                x < 16,
                *self == *old(self),
                forall|j: int| 0 <= j < k ==> !self.keypad[j],
            decreases 16 - k,
        {
            if self.keypad[k] {
                proof {
                    lemma_lowest_pressed(self.keypad@, k as int);
                }
                self.registers[x as usize] = k as u8;
                return Ok(());
            }
            k += 1;
        }
        if self.pc < 2 {
            return Err(Fault::ProgramCounterOutOfRange);
        }
        self.pc -= 2;
        Ok(())
    }
}

/// Whether `ins` moves the program counter or the stack.
spec fn is_control(ins: Instruction) -> bool {
    ||| ins is Nop
    ||| ins is Return
    ||| ins is Jump
    ||| ins is Call
    ||| ins is JumpOffset
    ||| ins is SkipEqByte
    ||| ins is SkipNeByte
    ||| ins is SkipEqReg
    ||| ins is SkipNeReg
    ||| ins is SkipKeyPressed
    ||| ins is SkipKeyNotPressed
    ||| ins is WaitKey
}

/// Whether `ins` computes a register.
spec fn is_arithmetic(ins: Instruction) -> bool {
    ||| ins is LoadByte
    ||| ins is AddByte
    ||| ins is Move
    ||| ins is Or
    ||| ins is And
    ||| ins is Xor
    ||| ins is AddCarry
    ||| ins is SubBorrow
    ||| ins is ShiftRight
    ||| ins is SubReverse
    ||| ins is ShiftLeft
    ||| ins is Random
}

/// Whether `ins` works on memory, the index register, the timers or the
/// framebuffer.
spec fn is_memory(ins: Instruction) -> bool {
    !is_control(ins) && !is_arithmetic(ins)
}

impl Chip8 {
    /// Turns every pixel off.
    fn clear_screen(&mut self)
        ensures
            step(old(self)@, Instruction::ClearScreen, 0) == Ok::<MachineState, Fault>(
                final(self)@,
            ),
            final(self).sp == old(self).sp,
    {
        self.video = [false; 2048];
        assert(self@ =~= (MachineState { video: Seq::new(2048, |p: int| false), ..old(self)@ }));
    }

    /// Pops the return address into the program counter.
    fn return_from_call(&mut self) -> (r: Result<(), Fault>)
        ensures
            realizes(old(self)@, final(self)@, r, step(old(self)@, Instruction::Return, 0)),
            final(self).wf() == old(self).wf(),
    {
        if self.sp == 0 {
            return Err(Fault::StackUnderflow);
        }
        if self.sp > 16 {
            return Err(Fault::StackOverflow);
        }
        self.sp -= 1;
        self.pc = self.stack[self.sp as usize];
        Ok(())
    }

    /// Pushes the program counter and jumps to `addr`.
    fn call(&mut self, addr: u16) -> (r: Result<(), Fault>)
        ensures
            realizes(old(self)@, final(self)@, r, step(old(self)@, Instruction::Call { addr }, 0)),
            final(self).wf() == old(self).wf(),
    {
        if self.sp >= 16 {
            return Err(Fault::StackOverflow);
        }
        self.stack[self.sp as usize] = self.pc;
        self.sp += 1;
        self.pc = addr;
        Ok(())
    }

    /// `Vx = Vx + Vy` modulo 256, then `VF` = carry.
    fn add_with_carry(&mut self, x: u8, y: u8)
        requires
            x < 16,
            y < 16,
        ensures
            step(old(self)@, Instruction::AddCarry { x, y }, 0) == Ok::<MachineState, Fault>(
                final(self)@,
            ),
            final(self).sp == old(self).sp,
    {
        let vx: u8 = self.registers[x as usize];
        let vy: u8 = self.registers[y as usize];
        let carry: bool = vx as u16 + vy as u16 > 255;
        self.set_reg(x, vx.wrapping_add(vy));
        self.set_reg(0xF, if carry {
            1
        } else {
            0
        });
    }

    /// `Vx = Vx - Vy` modulo 256, then `VF` = no borrow.
    fn subtract_with_borrow(&mut self, x: u8, y: u8)
        requires
            x < 16,
            y < 16,
        ensures
            step(old(self)@, Instruction::SubBorrow { x, y }, 0) == Ok::<MachineState, Fault>(
                final(self)@,
            ),
            final(self).sp == old(self).sp,
    {
        let vx: u8 = self.registers[x as usize];
        let vy: u8 = self.registers[y as usize];
        let borrow: bool = vx < vy;
        self.set_reg(x, vx.wrapping_sub(vy));
        self.set_reg(0xF, if borrow {
            0
        } else {
            1
        });
    }

    /// `VF` = lowest bit of `Vx`, then `Vx` is halved.
    fn shift_right(&mut self, x: u8)
        requires
            x < 16,
        ensures
            step(old(self)@, Instruction::ShiftRight { x }, 0) == Ok::<MachineState, Fault>(
                final(self)@,
            ),
            final(self).sp == old(self).sp,
    {
        let before: u8 = self.registers[x as usize];
        assert(before & 0x1 == before % 2) by (bit_vector);
        self.set_reg(0xF, before & 0x1);
        let vx: u8 = self.registers[x as usize];
        assert(vx >> 1 == vx / 2) by (bit_vector);
        self.set_reg(x, vx >> 1);
    }

    /// `VF` = `Vy > Vx`, then `Vx = Vy - Vx` modulo 256.
    fn subtract_reversed(&mut self, x: u8, y: u8)
        requires
            x < 16,
            y < 16,
        ensures
            step(old(self)@, Instruction::SubReverse { x, y }, 0) == Ok::<MachineState, Fault>(
                final(self)@,
            ),
            final(self).sp == old(self).sp,
    {
        let greater: bool = self.registers[y as usize] > self.registers[x as usize];
        self.set_reg(0xF, if greater {
            1
        } else {
            0
        });
        let vx: u8 = self.registers[x as usize];
        let vy: u8 = self.registers[y as usize];
        self.set_reg(x, vy.wrapping_sub(vx));
    }

    /// `VF` = highest bit of `Vx`, then `Vx` is doubled modulo 256.
    fn shift_left(&mut self, x: u8)
        requires
            x < 16,
        ensures
            step(old(self)@, Instruction::ShiftLeft { x }, 0) == Ok::<MachineState, Fault>(
                final(self)@,
            ),
            final(self).sp == old(self).sp,
    {
        let before: u8 = self.registers[x as usize];
        assert((before & 0x80) >> 7 == before / 128) by (bit_vector);
        self.set_reg(0xF, (before & 0x80) >> 7);
        let vx: u8 = self.registers[x as usize];
        assert(vx << 1 == ((vx * 2) % 256) as u8) by (bit_vector);
        self.set_reg(x, vx << 1);
    }

    /// Applies an instruction that moves the program counter or the stack.
    fn perform_control(&mut self, ins: Instruction) -> (r: Result<(), Fault>)
        requires
            ins.wf(),
            is_control(ins),
        ensures
            forall|random: u8|
                realizes(old(self)@, final(self)@, r, #[trigger] step(old(self)@, ins, random)),
            final(self).wf() == old(self).wf(),
    {
        match ins {
            Instruction::Nop => Ok(()),
            Instruction::Return => self.return_from_call(),
            Instruction::Jump { addr } => {
                self.set_pc(addr);
                Ok(())
            },
            Instruction::Call { addr } => self.call(addr),
            Instruction::JumpOffset { addr } => {
                let v0: u16 = self.registers[0] as u16;
                self.set_pc(v0 + addr);
                Ok(())
            },
            Instruction::SkipEqByte { x, byte } => {
                let vx: u8 = self.registers[x as usize];
                self.skip_if(vx == byte)
            },
            Instruction::SkipNeByte { x, byte } => {
                let vx: u8 = self.registers[x as usize];
                self.skip_if(vx != byte)
            },
            Instruction::SkipEqReg { x, y } => {
                let vx: u8 = self.registers[x as usize];
                let vy: u8 = self.registers[y as usize];
                self.skip_if(vx == vy)
            },
            Instruction::SkipNeReg { x, y } => {
                let vx: u8 = self.registers[x as usize];
                let vy: u8 = self.registers[y as usize];
                self.skip_if(vx != vy)
            },
            Instruction::SkipKeyPressed { x } => self.skip_if_key(x, true),
            Instruction::SkipKeyNotPressed { x } => self.skip_if_key(x, false),
            Instruction::WaitKey { x } => self.wait_key(x),
            // The precondition leaves no other instruction.
            _ => Ok(()),
        }
    }

    /// Applies an instruction that computes a register.
    fn perform_arithmetic(&mut self, ins: Instruction, random: u8) -> (r: Result<(), Fault>)
        requires
            ins.wf(),
            is_arithmetic(ins),
        ensures
            realizes(old(self)@, final(self)@, r, step(old(self)@, ins, random)),
            final(self).wf() == old(self).wf(),
    {
        match ins {
            Instruction::LoadByte { x, byte } => {
                self.set_reg(x, byte);
                Ok(())
            },
            Instruction::AddByte { x, byte } => {
                let vx: u8 = self.registers[x as usize];
                self.set_reg(x, vx.wrapping_add(byte));
                Ok(())
            },
            Instruction::Move { x, y } => {
                let vy: u8 = self.registers[y as usize];
                self.set_reg(x, vy);
                Ok(())
            },
            Instruction::Or { x, y } => {
                let vx: u8 = self.registers[x as usize];
                let vy: u8 = self.registers[y as usize];
                self.set_reg(x, vx | vy);
                Ok(())
            },
            Instruction::And { x, y } => {
                let vx: u8 = self.registers[x as usize];
                let vy: u8 = self.registers[y as usize];
                self.set_reg(x, vx & vy);
                Ok(())
            },
            Instruction::Xor { x, y } => {
                let vx: u8 = self.registers[x as usize];
                let vy: u8 = self.registers[y as usize];
                self.set_reg(x, vx ^ vy);
                Ok(())
            },
            Instruction::AddCarry { x, y } => {
                self.add_with_carry(x, y);
                Ok(())
            },
            Instruction::SubBorrow { x, y } => {
                self.subtract_with_borrow(x, y);
                Ok(())
            },
            Instruction::ShiftRight { x } => {
                self.shift_right(x);
                Ok(())
            },
            Instruction::SubReverse { x, y } => {
                self.subtract_reversed(x, y);
                Ok(())
            },
            Instruction::ShiftLeft { x } => {
                self.shift_left(x);
                Ok(())
            },
            Instruction::Random { x, byte } => {
                self.set_reg(x, random & byte);
                Ok(())
            },
            // The precondition leaves no other instruction.
            _ => Ok(()),
        }
    }

    /// Applies an instruction on memory, the index register, the timers or
    /// the framebuffer.
    fn perform_memory(&mut self, ins: Instruction) -> (r: Result<(), Fault>)
        requires
            ins.wf(),
            is_memory(ins),
        ensures
            forall|random: u8|
                realizes(old(self)@, final(self)@, r, #[trigger] step(old(self)@, ins, random)),
            final(self).wf() == old(self).wf(),
    {
        match ins {
            Instruction::ClearScreen => {
                self.clear_screen();
                Ok(())
            },
            Instruction::LoadIndex { addr } => {
                self.set_index(addr);
                Ok(())
            },
            Instruction::Draw { x, y, rows } => self.draw_sprite(x, y, rows),
            Instruction::LoadDelay { x } => {
                let t: u8 = self.dtimer;
                self.set_reg(x, t);
                Ok(())
            },
            Instruction::StoreDelay { x } => {
                let vx: u8 = self.registers[x as usize];
                self.set_delay(vx);
                Ok(())
            },
            Instruction::StoreSound { x } => {
                let vx: u8 = self.registers[x as usize];
                self.set_sound(vx);
                Ok(())
            },
            Instruction::AddIndex { x } => {
                let vx: u16 = self.registers[x as usize] as u16;
                let sum: u16 = self.index.wrapping_add(vx);
                self.set_index(sum);
                Ok(())
            },
            Instruction::FontAddress { x } => {
                let digit: u16 = self.registers[x as usize] as u16;
                self.set_index(0x50 + 5 * digit);
                Ok(())
            },
            Instruction::StoreBcd { x } => self.store_bcd(x),
            Instruction::StoreRegisters { x } => self.store_registers(x),
            Instruction::LoadRegisters { x } => self.load_registers(x),
            // The precondition leaves no other instruction.
            _ => Ok(()),
        }
    }

    /// Applies one decoded instruction. `random` is the byte that the
    /// random-number instruction uses.
    ///
    /// The machine ends in the state that `step` gives, or, on a fault,
    /// stays as it was.
    pub fn perform(&mut self, ins: Instruction, random: u8) -> (r: Result<(), Fault>)
        requires
            ins.wf(),
        ensures
            realizes(old(self)@, final(self)@, r, step(old(self)@, ins, random)),
            final(self).wf() == old(self).wf(),
    {
        match ins {
            Instruction::Nop
            | Instruction::Return
            | Instruction::Jump { .. }
            | Instruction::Call { .. }
            | Instruction::JumpOffset { .. }
            | Instruction::SkipEqByte { .. }
            | Instruction::SkipNeByte { .. }
            | Instruction::SkipEqReg { .. }
            | Instruction::SkipNeReg { .. }
            | Instruction::SkipKeyPressed { .. }
            | Instruction::SkipKeyNotPressed { .. }
            | Instruction::WaitKey { .. } => self.perform_control(ins),
            Instruction::LoadByte { .. }
            | Instruction::AddByte { .. }
            | Instruction::Move { .. }
            | Instruction::Or { .. }
            | Instruction::And { .. }
            | Instruction::Xor { .. }
            | Instruction::AddCarry { .. }
            | Instruction::SubBorrow { .. }
            | Instruction::ShiftRight { .. }
            | Instruction::SubReverse { .. }
            | Instruction::ShiftLeft { .. }
            | Instruction::Random { .. } => self.perform_arithmetic(ins, random),
            Instruction::ClearScreen
            | Instruction::LoadIndex { .. }
            | Instruction::Draw { .. }
            | Instruction::LoadDelay { .. }
            | Instruction::StoreDelay { .. }
            | Instruction::StoreSound { .. }
            | Instruction::AddIndex { .. }
            | Instruction::FontAddress { .. }
            | Instruction::StoreBcd { .. }
            | Instruction::StoreRegisters { .. }
            | Instruction::LoadRegisters { .. } => self.perform_memory(ins),
        }
    }

    /// Decodes and executes one instruction word, with `random` as the byte
    /// that the random-number instruction uses.
    ///
    /// The machine ends in the state that `execute_spec` gives. A word that
    /// matches no instruction, a call or return that the stack cannot take,
    /// an access outside memory, a key number above fifteen or a program
    /// counter outside its range is a fault, and leaves the machine as it
    /// was.
    pub fn execute_with(&mut self, opcode: u16, random: u8) -> (r: Result<(), Fault>)
        ensures
            realizes(old(self)@, final(self)@, r, execute_spec(old(self)@, opcode, random)),
            final(self).wf() == old(self).wf(),
    {
        match decode(opcode) {
            Some(ins) => self.perform(ins, random),
            None => Err(Fault::UnknownOpcode { opcode, pc: self.pc }),
        }
    }

    /// Decodes and executes one instruction word.
    ///
    /// For every word but the random-number instruction the outcome is the
    /// one that `execute_spec` gives; the byte it is given there plays no
    /// part, so the contract passes zero. For the random-number instruction
    /// it is the outcome for some byte, which comes from the thread's random
    /// generator.
    pub fn execute(&mut self, opcode: u16) -> (r: Result<(), Fault>)
        ensures
            !is_random_opcode(opcode) ==> realizes(
                old(self)@,
                final(self)@,
                r,
                execute_spec(old(self)@, opcode, 0),
            ),
            is_random_opcode(opcode) ==> exists|random: u8|
                realizes(
                    old(self)@,
                    final(self)@,
                    r,
                    #[trigger] execute_spec(old(self)@, opcode, random),
                ),
            final(self).wf() == old(self).wf(),
    {
        let random: u8 = if is_random(opcode) {
            random_byte()
        } else {
            0
        };
        proof {
            if !is_random_opcode(opcode) {
                lemma_random_only_for_random_opcode(self@, opcode, random);
            }
        }
        self.execute_with(opcode, random)
    }

    /// Runs one cycle: fetches the instruction at the program counter and
    /// executes it.
    ///
    /// With the program counter outside memory nothing happens but the
    /// fault. Otherwise the word is fetched and executed; if the execution
    /// ends in a fault, the machine stays as it was after the fetch. The
    /// outcome is the one that `tick_spec` gives for the byte that the
    /// random-number instruction drew; where the word is another
    /// instruction the byte plays no part, and the contract passes zero.
    pub fn tick(&mut self) -> (r: Result<(), Fault>)
        ensures
            exists|random: u8|
                (Outcome { state: final(self)@, result: r }) =~= #[trigger] tick_spec(
                    old(self)@,
                    random,
                ),
            tick_is_deterministic(old(self)@) ==> (Outcome { state: final(self)@, result: r })
                =~= tick_spec(old(self)@, 0),
            final(self).wf() == old(self).wf(),
    {
        if self.pc as usize + 1 >= MEMORY_SIZE {
            assert((Outcome {
                state: self@,
                result: Err(Fault::ProgramCounterOutOfRange),
            }) =~= tick_spec(old(self)@, 0));
            return Err(Fault::ProgramCounterOutOfRange);
        }
        let op: u16 = self.fetch();
        let ghost fetched: MachineState = self@;
        let r = self.execute(op);
        proof {
            let reached: Outcome = Outcome { state: self@, result: r };
            match r {
                Ok(unit) => {
                    assert(unit == ());
                    assert(r == Ok::<(), Fault>(unit));
                },
                Err(_) => {},
            }
            if is_random_opcode(op) {
                let random: u8 = choose|random: u8|
                    realizes(fetched, self@, r, #[trigger] execute_spec(fetched, op, random));
                assert(reached =~= tick_spec(old(self)@, random));
            } else {
                assert(reached =~= tick_spec(old(self)@, 0));
            }
        }
        r
    }
}

/// Only the random-number instruction looks at the random byte: for every
/// other word the outcome is the same for all bytes.
pub proof fn lemma_random_only_for_random_opcode(s: MachineState, opcode: u16, random: u8)
    requires
        !is_random_opcode(opcode),
    ensures
        forall|other: u8| #[trigger] execute_spec(s, opcode, other) == execute_spec(s, opcode, random),
{
}

} // verus!
