//! A CHIP-8 virtual machine: memory, call stack, display, keypad and the
//! fetch -> decode -> execute cycle, with contracts over an abstract model.
pub mod chip8;
pub mod effects;
pub mod encoding;
pub mod inout;
pub mod isa;
pub mod laws;
pub mod machine;
pub mod memory;
