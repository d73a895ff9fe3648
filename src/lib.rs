//! An emulator core for the CHIP-8 virtual machine: memory, registers, call stack, timers,
//! keypad and a monochrome framebuffer, driven one fetch-decode-execute step at a time.
//!
//! Every instruction handler is verified against its meaning in [`semantics`], and
//! [`laws`] proves properties of the instruction set over all machine states.
pub mod constants;
pub mod decode;
pub mod semantics;
pub mod chip8;
pub mod render;
pub mod laws;

pub use crate::chip8::instructions;
pub use crate::chip8::{Chip8, LoadError};
pub use crate::decode::Instruction;
pub use crate::render::{pixels_to_rgba, Rgb};
pub use crate::semantics::{Chip8Error, KeyWait};
