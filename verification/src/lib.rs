//! A verified core for a small fixed-width virtual machine: a bank of 8-bit
//! registers with two countdown timers, a 16-slot call stack, 4096 bytes of
//! memory, a monochrome wrap-around display, and a fetch-decode-execute
//! engine for the 34 instruction forms of the machine.
//!
//! The windowing, audio and input backends live outside this crate; the core
//! exposes plain state (the display grid, the sound trigger, the keypad
//! flags) for them to read and drive.
#![allow(non_snake_case)]

pub mod audio;
pub mod cpu;
pub mod display;
pub mod inst;
pub mod laws;
pub mod registers;
pub mod semantics;
pub mod state;

use vstd::prelude::*;

verus! {

/// Number of general-purpose registers.
pub const GP_REG_CNT: usize = 16;

/// Number of logical keys on the keypad.
pub const KEYBOARD_SIZE: usize = 16;

/// Size of the flat memory image in bytes.
pub const RAM_SIZE: usize = 0x1000;

/// Capacity of the call stack, in return-address slots.
pub const STACK_SIZE: usize = 16;

/// Logical width of the display in pixels.
pub const DISPLAY_MODE_WIDTH: usize = 64;

/// Logical height of the display in pixels.
pub const DISPLAY_MODE_HEIGHT: usize = 32;

/// Address at which a program image is loaded and execution starts.
pub const ENTRY_POINT: u16 = 0x200;

} // verus!
