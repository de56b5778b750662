//! An interpreter for the CHIP-8 virtual machine: memory with its resident
//! font, a monochrome display with XOR sprite drawing, and a VM core whose
//! instruction semantics are stated over a mathematical model and proved.

pub mod bitwise;
pub mod hex;
pub mod error;
pub mod memory;
pub mod frontend;
pub mod chip8;
