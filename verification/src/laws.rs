//! Laws of the machine: statements about whole families of states and
//! instruction sequences, each proved from the model of the instructions.

use vstd::prelude::*;
use crate::fault::Fault;
use crate::instruction::{decode_spec, Instruction};
use crate::machine::{initial_state, program_fits, MachineState, FONTSET};
use crate::semantics::{any_key_pressed, execute_spec, flag, step, tick_spec, Outcome};

verus! {

/// A loaded program stands byte for byte from the load address on, and the
/// rest of memory, the glyphs among it, is what it was.
pub proof fn law_load_places_program(s: MachineState, rom: Seq<u8>)
    requires
        s.wf(),
        program_fits(rom.len()),
    ensures
        s.with_program(rom).wf(),
        forall|offset: int|
            0 <= offset < rom.len() ==> s.with_program(rom).memory[0x200 + offset] == rom[offset],
        forall|a: int|
            0 <= a < 0x200 || 0x200 + rom.len() <= a < 4096 ==> s.with_program(rom).memory[a]
                == s.memory[a],
{
}

/// In a machine that was just created, a loaded program is followed by
/// zeros up to the end of memory, and the glyphs are in place.
pub proof fn law_load_into_fresh_machine(rom: Seq<u8>)
    requires
        program_fits(rom.len()),
    ensures
        forall|a: int|
            0x200 + rom.len() <= a < 4096 ==> initial_state().with_program(rom).memory[a] == 0,
        forall|i: int|
            0 <= i < 80 ==> initial_state().with_program(rom).memory[0x50 + i] == FONTSET[i],
{
}

/// An instruction keeps a well-formed machine well-formed.
pub proof fn law_step_preserves_wf(s: MachineState, ins: Instruction, random: u8)
    requires
        s.wf(),
        ins.wf(),
    ensures
        step(s, ins, random) matches Ok(t) ==> t.wf(),
{
}

/// A call succeeds exactly when a stack level is free, and takes one; a
/// return succeeds exactly when a level is in use, and frees one.
pub proof fn law_stack_discipline(s: MachineState, addr: u16, random: u8)
    requires
        s.wf(),
    ensures
        step(s, Instruction::Call { addr }, random) is Ok <==> s.sp < 16,
        step(s, Instruction::Call { addr }, random) matches Ok(t) ==> t.sp == s.sp + 1,
        s.sp >= 16 ==> step(s, Instruction::Call { addr }, random) == Err::<MachineState, Fault>(
            Fault::StackOverflow,
        ),
        step(s, Instruction::Return, random) is Ok <==> s.sp > 0,
        step(s, Instruction::Return, random) matches Ok(t) ==> t.sp == s.sp - 1,
        s.sp == 0 ==> step(s, Instruction::Return, random) == Err::<MachineState, Fault>(
            Fault::StackUnderflow,
        ),
{
}

/// The state after calling the addresses of `addrs` one inside the other,
/// or the fault of the first call that fails.
pub open spec fn after_calls(s: MachineState, addrs: Seq<u16>) -> Result<MachineState, Fault>
    decreases addrs.len(),
{
    if addrs.len() == 0 {
        Ok(s)
    } else {
        match after_calls(s, addrs.drop_last()) {
            Ok(t) => step(t, Instruction::Call { addr: addrs.last() }, 0),
            Err(f) => Err(f),
        }
    }
}

/// The state after `n` returns in a row, or the fault of the first return
/// that fails.
pub open spec fn after_returns(s: MachineState, n: nat) -> Result<MachineState, Fault>
    decreases n,
{
    if n == 0 {
        Ok(s)
    } else {
        match after_returns(s, (n - 1) as nat) {
            Ok(t) => step(t, Instruction::Return, 0),
            Err(f) => Err(f),
        }
    }
}

/// Nested calls succeed as long as the stack has room for them, and then
/// use one level each; one call more is a stack overflow.
pub proof fn law_nested_calls(s: MachineState, addrs: Seq<u16>)
    requires
        s.wf(),
    ensures
        s.sp + addrs.len() <= 16 ==> (after_calls(s, addrs) matches Ok(t) && t.wf() && t.sp == s.sp
            + addrs.len()),
        s.sp + addrs.len() > 16 ==> after_calls(s, addrs) == Err::<MachineState, Fault>(
            Fault::StackOverflow,
        ),
    decreases addrs.len(),
{
    if addrs.len() > 0 {
        law_nested_calls(s, addrs.drop_last());
    }
}

/// Returns succeed as long as there are levels in use, and free one each;
/// one return more is a stack underflow.
pub proof fn law_unwinding(s: MachineState, n: nat)
    requires
        s.wf(),
    ensures
        n <= s.sp ==> (after_returns(s, n) matches Ok(t) && t.wf() && t.sp == s.sp - n),
        n > s.sp ==> after_returns(s, n) == Err::<MachineState, Fault>(Fault::StackUnderflow),
    decreases n,
{
    if n > 0 {
        law_unwinding(s, (n - 1) as nat);
    }
}

/// A call followed at once by a return brings the program counter back to
/// where it stood when the call was executed, which after a fetch is the
/// address of the instruction that follows the call. Nothing else differs
/// from before but the stack slot that held the return address.
pub proof fn law_call_then_return(s: MachineState, addr: u16, r1: u8, r2: u8)
    requires
        s.wf(),
        s.sp < 16,
        addr < 4096,
    ensures
        ({
            &&& execute_spec(s, (0x2000 + addr) as u16, r1) matches Ok(t)
            &&& t.pc == addr
            &&& execute_spec(t, 0x00EE, r2) matches Ok(u)
            &&& u.pc == s.pc
            &&& u == (MachineState { stack: s.stack.update(s.sp as int, s.pc), ..s })
        }),
{
    let word: u16 = (0x2000 + addr) as u16;
    assert(decode_spec(word) == Some(Instruction::Call { addr }));
    assert(decode_spec(0x00EE) == Some(Instruction::Return));
    let t: MachineState = execute_spec(s, word, r1)->Ok_0;
    let u: MachineState = execute_spec(t, 0x00EE, r2)->Ok_0;
    assert(u =~= (MachineState { stack: s.stack.update(s.sp as int, s.pc), ..s }));
}

/// The same over two whole cycles: where the program counter stands on a
/// call to an address that holds a return, two cycles later it stands on
/// the instruction after the call.
pub proof fn law_call_then_return_cycles(s: MachineState, addr: u16, r1: u8, r2: u8)
    requires
        s.wf(),
        s.sp < 16,
        s.pc_in_range(),
        addr + 1 < 4096,
        s.fetch_word() == 0x2000 + addr,
        s.memory[addr as int] == 0x00,
        s.memory[addr + 1] == 0xEE,
    ensures
        tick_spec(s, r1).result is Ok,
        tick_spec(tick_spec(s, r1).state, r2).result is Ok,
        tick_spec(tick_spec(s, r1).state, r2).state.pc == s.pc + 2,
        tick_spec(tick_spec(s, r1).state, r2).state.sp == s.sp,
{
    law_call_then_return(s.after_fetch(), addr, r1, r2);
    let t: MachineState = tick_spec(s, r1).state;
    assert(t.pc == addr);
    assert(t.memory == s.memory);
    assert(t.fetch_word() == 0x00EE);
    assert(decode_spec(0x00EE) == Some(Instruction::Return));
}

/// Waiting for a key with no key down is a cycle that changes nothing: the
/// program counter stays on the instruction, which runs again next cycle.
pub proof fn law_wait_key_holds(s: MachineState, random: u8)
    requires
        s.wf(),
        s.pc_in_range(),
        decode_spec(s.fetch_word()) matches Some(Instruction::WaitKey { .. }),
        !any_key_pressed(s.keypad),
    ensures
        tick_spec(s, random) == (Outcome { state: s, result: Ok(()) }),
{
    assert(tick_spec(s, random) =~= (Outcome { state: s, result: Ok(()) }));
}

/// Registers stored at the index register and loaded again from there come
/// back as they were, whatever happened to the registers in between.
pub proof fn law_store_then_load_registers(
    s: MachineState,
    between: MachineState,
    x: u8,
    r1: u8,
    r2: u8,
)
    requires
        s.wf(),
        between.wf(),
        x < 16,
        s.index + x < 4096,
        ({
            &&& step(s, Instruction::StoreRegisters { x }, r1) matches Ok(t)
            &&& between.memory == t.memory
            &&& between.index == t.index
        }),
    ensures
        ({
            &&& step(between, Instruction::LoadRegisters { x }, r2) matches Ok(u)
            &&& forall|i: int| 0 <= i <= x ==> u.registers[i] == s.registers[i]
        }),
{
}

/// Storing the registers and loading them at once changes no register.
pub proof fn law_store_load_round_trip(s: MachineState, x: u8, r1: u8, r2: u8)
    requires
        s.wf(),
        x < 16,
        s.index + x < 4096,
    ensures
        ({
            &&& step(s, Instruction::StoreRegisters { x }, r1) matches Ok(t)
            &&& step(t, Instruction::LoadRegisters { x }, r2) == Ok::<MachineState, Fault>(t)
            &&& t.registers == s.registers
        }),
{
    let t: MachineState = step(s, Instruction::StoreRegisters { x }, r1)->Ok_0;
    let u: MachineState = step(t, Instruction::LoadRegisters { x }, r2)->Ok_0;
    assert(u.registers =~= t.registers);
    assert(u =~= t);
}

/// Adding with carry loses nothing: the new `Vx` and the carry together are
/// the true sum. (With `x` the flag register the carry overwrites the sum.)
pub proof fn law_add_with_carry(s: MachineState, x: u8, y: u8, random: u8)
    requires
        s.wf(),
        x < 15,
        y < 16,
    ensures
        step(s, Instruction::AddCarry { x, y }, random) matches Ok(t) && t.reg(x) + 256 * t.reg(
            0xF,
        ) == s.reg(x) + s.reg(y) && t.reg(0xF) <= 1,
{
}

/// Subtracting with borrow loses nothing: the new `Vx`, less 256 where a
/// borrow occurred (`VF` = 0), is the true difference.
pub proof fn law_subtract_with_borrow(s: MachineState, x: u8, y: u8, random: u8)
    requires
        s.wf(),
        x < 15,
        y < 16,
    ensures
        step(s, Instruction::SubBorrow { x, y }, random) matches Ok(t) && t.reg(x) - 256 * (1
            - t.reg(0xF)) == s.reg(x) - s.reg(y) && t.reg(0xF) <= 1,
{
}

/// The three bytes that the decimal instruction stores are decimal digits
/// and spell the value of `Vx`.
pub proof fn law_bcd_digits(s: MachineState, x: u8, random: u8)
    requires
        s.wf(),
        x < 16,
        s.index + 2 < 4096,
    ensures
        step(s, Instruction::StoreBcd { x }, random) matches Ok(t) && {
            let h: u8 = t.memory[s.index as int];
            let d: u8 = t.memory[s.index + 1];
            let u: u8 = t.memory[s.index + 2];
            h < 10 && d < 10 && u < 10 && 100 * h + 10 * d + u == s.reg(x)
        },
{
}

/// The glyph address of a hexadecimal digit is the start of five bytes of
/// the glyph data.
pub proof fn law_font_address(s: MachineState, x: u8, random: u8)
    requires
        s.wf(),
        x < 16,
        s.reg(x) < 16,
    ensures
        step(s, Instruction::FontAddress { x }, random) matches Ok(t) && t.index == 0x50 + 5
            * s.reg(x) && 0x50 <= t.index && t.index + 5 <= 0x50 + 80,
{
}

/// Drawing the same sprite twice at the same place restores the
/// framebuffer; the second draw reports a collision exactly when the sprite
/// covers a pixel that was off at first. The coordinate registers must not
/// be the flag register, which the first draw overwrites.
pub proof fn law_draw_twice(s: MachineState, x: u8, y: u8, rows: u8, r1: u8, r2: u8)
    requires
        s.wf(),
        x < 15,
        y < 15,
        rows < 16,
        rows > 0 ==> s.index + rows <= 4096,
    ensures
        ({
            &&& step(s, Instruction::Draw { x, y, rows }, r1) matches Ok(t)
            &&& step(t, Instruction::Draw { x, y, rows }, r2) matches Ok(u)
            &&& u.video == s.video
            &&& u.reg(0xF) == flag(
                exists|p: int|
                    0 <= p < 2048 && !s.video[p] && #[trigger] s.sprite_covers(
                        s.reg(x),
                        s.reg(y),
                        rows,
                        p,
                    ),
            )
        }),
{
    let vx: u8 = s.reg(x);
    let vy: u8 = s.reg(y);
    let t: MachineState = step(s, Instruction::Draw { x, y, rows }, r1)->Ok_0;
    let u: MachineState = step(t, Instruction::Draw { x, y, rows }, r2)->Ok_0;
    assert(t.reg(x) == vx && t.reg(y) == vy);
    assert forall|p: int| t.sprite_covers(vx, vy, rows, p) == s.sprite_covers(vx, vy, rows, p) by {
        reveal(MachineState::sprite_covers);
    }
    assert(u.video =~= s.video);
    let uncovered: bool = exists|p: int|
        0 <= p < 2048 && !s.video[p] && #[trigger] s.sprite_covers(vx, vy, rows, p);
    if t.draw_collides(vx, vy, rows) {
        let p: int = choose|p: int|
            0 <= p < 2048 && t.video[p] && #[trigger] t.sprite_covers(vx, vy, rows, p);
        assert(!s.video[p] && s.sprite_covers(vx, vy, rows, p));
    }
    if uncovered {
        let p: int = choose|p: int|
            0 <= p < 2048 && !s.video[p] && #[trigger] s.sprite_covers(vx, vy, rows, p);
        assert(t.video[p] && t.sprite_covers(vx, vy, rows, p));
    }
}

} // verus!
