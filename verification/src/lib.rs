//! An emulator core for the Game Boy Advance together with a small
//! fixed-capacity vector and the front end of a toy compiler.
use vstd::prelude::*;

pub mod bits;
pub mod commands;
pub mod comp;
pub mod decode;
pub mod decomp;
pub mod display;
pub mod gba;
pub mod hex;
pub mod instructions;
pub mod interrupts;
pub mod io_registers;
pub mod memory;
pub mod plugins;
pub mod registers;
pub mod shifter_operand;
pub mod stackvec;

verus! {

} // verus!
