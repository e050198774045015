//! A CHIP-8 virtual machine core: a 4 KiB address space, sixteen 8-bit data
//! registers, a 16-bit index register, a call stack, two 60 Hz timers, a
//! 16-key keypad and a 64x32 monochrome frame buffer, driven by a
//! fetch-decode-execute interpreter whose state transitions are verified.

use vstd::prelude::*;

pub mod chip8;
pub mod clock;
pub mod cpu;
pub mod cpu_core;
pub mod cpu_opcode;
pub mod ext;
pub mod lemmas;
pub mod model;
pub mod opcode;

verus! {

/// Width of the display in pixels.
pub const W: usize = 64;

/// Height of the display in pixels.
pub const H: usize = 32;

/// Number of cells in the frame buffer.
pub const WXH: usize = 2048;

} // verus!
