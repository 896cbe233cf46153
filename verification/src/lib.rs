//! A CHIP-8 virtual machine core: opcode decoding into a typed instruction
//! set, and the per-instruction state-transition semantics of a processor
//! owning memory, registers, a call stack, timers, a bitmap display and key
//! flags.  Every public operation carries a contract that pins down the
//! machine's next state; a host loop around the library drives stepping,
//! input and presentation.

pub mod cpu;
pub mod draw;
pub mod fonts;
pub mod instr;
pub mod laws;
pub mod opcode;
mod rng;
