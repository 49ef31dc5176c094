//! A CHIP-8 interpreter: opcode decoding, memory, a 64x32 monochrome
//! framebuffer and the fetch-decode-execute state machine, each step stated
//! over a mathematical model of the machine.
use vstd::prelude::*;

pub mod display;
pub mod keypad;
pub mod laws;
pub mod machine;
pub mod memory;
pub mod opcodes;
pub mod vm;

verus! {

} // verus!
