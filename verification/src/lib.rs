//! Execution core of a small dynamic-language interpreter: a compact bytecode
//! representation (`chunk`), a disassembler, a lexical scanner (`scanner`),
//! and a stack-based virtual machine (`vm`) that executes bytecode.

pub mod chunk;
pub mod cli;
pub mod scanner;
pub mod text;
pub mod value;
pub mod vm;

use vstd::prelude::*;

verus! {

/// Largest number of constants a chunk may hold: a constant-pool index
/// must fit in 24 bits.
pub const MAX_CONSTANTS: usize = 0x1000000;

} // verus!
