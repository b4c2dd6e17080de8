//! A virtual machine for the CHIP-8 instruction set: the machine state, the
//! instruction decoder and the fetch-decode-execute interpreter, each with a
//! machine-checked contract over a mathematical model of the state.
//!
//! - `machine`: the state, its model `MachineState`, creation, program
//!   loading, keys and timers.
//! - `instruction`: the instruction set and the decoder.
//! - `semantics`: what each instruction, a cycle and a frame do, as
//!   functions on the model.
//! - `interpreter`: fetch, execute and one cycle, proved to compute those
//!   functions.
//! - `host`: what an input event and a display frame do to the machine.
//! - `drivers`: the keyboard layout and the rectangles that show a
//!   framebuffer.
//! - `laws`: theorems about the model.
//! - `fault`: the errors.

pub mod drivers;
pub mod fault;
pub mod host;
pub mod instruction;
pub mod interpreter;
pub mod laws;
pub mod machine;
pub mod semantics;

pub use fault::{Fault, LoadError};
pub use host::{HostEvent, LoopControl};
pub use instruction::{decode, Instruction};
pub use machine::{Chip8, CHIP8_HEIGHT, CHIP8_WIDTH};
