//! Sizes, addresses and the built-in font of the machine.
use vstd::prelude::*;

verus! {

/// Width of the framebuffer in pixels.
pub const WIDTH: usize = 64;

/// Height of the framebuffer in pixels.
pub const HEIGHT: usize = 32;

/// Number of pixels in the framebuffer.
pub const DISPLAY_SIZE: usize = 2048;

/// Bytes of addressable memory.
pub const RAM_SIZE: usize = 4096;

/// Number of general-purpose registers (`V0`-`VF`).
pub const NUM_REGISTERS: usize = 16;

/// Number of return-address slots on the call stack.
pub const STACK_SIZE: usize = 16;

/// Number of keys on the keypad.
pub const NUM_KEYS: usize = 16;

/// Address at which programs are loaded and execution begins.
pub const START_ADDRESS: usize = 0x200;

/// Address at which the built-in font is stored.
pub const FONTSET_START_ADDRESS: usize = 0x50;

/// Size of the built-in font in bytes: 16 glyphs of 5 bytes.
pub const FONTSET_SIZE: usize = 80;

/// The built-in hexadecimal font (glyphs `0`-`F`, 5 rows of 4 pixels each).
pub const FONTSET: [u8; FONTSET_SIZE] = [
    0xF0, 0x90, 0x90, 0x90, 0xF0, // 0
    0x20, 0x60, 0x20, 0x20, 0x70, // 1
    0xF0, 0x10, 0xF0, 0x80, 0xF0, // 2
    0xF0, 0x10, 0xF0, 0x10, 0xF0, // 3
    0x90, 0x90, 0xF0, 0x10, 0x10, // 4
    0xF0, 0x80, 0xF0, 0x10, 0xF0, // 5
    0xF0, 0x80, 0xF0, 0x90, 0xF0, // 6
    0xF0, 0x10, 0x20, 0x40, 0x40, // 7
    0xF0, 0x90, 0xF0, 0x90, 0xF0, // 8
    0xF0, 0x90, 0xF0, 0x10, 0xF0, // 9
    0xF0, 0x90, 0xF0, 0x90, 0x90, // A
    0xE0, 0x90, 0xE0, 0x90, 0xE0, // B
    0xF0, 0x80, 0x80, 0x80, 0xF0, // C
    0xE0, 0x90, 0x90, 0x90, 0xE0, // D
    0xF0, 0x80, 0xF0, 0x80, 0xF0, // E
    0xF0, 0x80, 0xF0, 0x80, 0x80, // F
];

} // verus!
