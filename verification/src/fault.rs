//! The ways in which loading a program or running an instruction can fail.

use vstd::prelude::*;

verus! {

/// Why a program could not be placed in memory.
#[derive(Clone, Copy, Debug, PartialEq, Eq, Structural)]
pub enum LoadError {
    /// The program is longer than the region from the load address to the end
    /// of memory. The machine is left as it was.
    OutOfCapacity,
}

/// A fatal condition met while fetching or executing an instruction.
///
/// A function that reports a fault leaves the machine exactly as it found it,
/// so the caller can inspect the state and decide whether to halt.
#[derive(Clone, Copy, Debug, PartialEq, Eq, Structural)]
pub enum Fault {
    /// The instruction word matches no operation. `pc` is the value of the
    /// program counter at the moment the word was rejected.
    UnknownOpcode { opcode: u16, pc: u16 },
    /// A call was made with all sixteen stack levels in use, or a call or
    /// return with a stack pointer past them.
    StackOverflow,
    /// A return was made with an empty stack.
    StackUnderflow,
    /// The program counter does not address two bytes inside memory, or a
    /// skip or rewind would take it outside its sixteen bits.
    ProgramCounterOutOfRange,
    /// An instruction would read or write memory past the last address.
    MemoryOutOfRange,
    /// A key instruction named a key outside the sixteen-key pad.
    KeyOutOfRange,
}

} // verus!
