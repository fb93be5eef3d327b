//! A 16-bit register machine emulator: registers, memory with a
//! memory-mapped keyboard, instruction decoding and execution, and traps.

pub mod reference;
pub mod operations;
pub mod memory;
pub mod traps;
pub mod cpu;
