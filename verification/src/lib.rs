//! A Game Boy emulator core: memory map, CPU registers and flags, and the
//! instruction step, each with a verified contract.

pub mod memory;
pub mod cpu;
pub mod databus;
pub mod gameboy;
