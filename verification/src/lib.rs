//! A CHIP-8 virtual machine: 4096 bytes of memory, sixteen 8-bit registers,
//! a bounded call stack, a 64x32 monochrome display, and an instruction
//! decode/execute engine, each with a verified contract.

pub mod display;
pub mod errors;
pub mod laws;
pub mod memory;
pub mod opcode;
pub mod registers;
pub mod system;
