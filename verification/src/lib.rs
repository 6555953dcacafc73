//! An interpreter for the Simple Stack Machine: assembly text is parsed into
//! instructions, linked, encoded into a flat image of 32-bit words and run on
//! a small virtual processor.

pub mod cpu;
pub mod error;
pub mod grammar;
pub mod instruction;
pub mod laws;
pub mod linker;
pub mod machine;
pub mod mnemonic;
pub mod parser;
pub mod print;
pub mod register;
pub mod roundtrip;
pub mod std_specs;
pub mod text;

pub use cpu::Cpu;
pub use instruction::{Color, Instr};
pub use machine::{Output, OutputKind};
pub use parser::parse;
pub use register::{Reg, RegisterFile};

use vstd::prelude::*;

verus! {

/// Number of words in the region that holds the program text and the stack.
/// Addresses from here upwards belong to the heap.
pub const MAX_STACK_SIZE: usize = 2000;

/// A program: instructions, label definitions and annotations in the order
/// in which they were written.
pub type Code = Vec<Instr>;

} // verus!
