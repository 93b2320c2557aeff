//! A small assembler for a register machine's mnemonic language and the machine that runs
//! the bytecode it produces.

use vstd::prelude::*;

pub mod assembler;
pub mod display;
pub mod isa;
pub mod text;
pub mod vm;

verus! {

} // verus!
