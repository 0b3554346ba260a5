//! A CHIP-8 virtual machine core: machine state, the fetch/decode/execute
//! cycle for the classic 35-instruction set, and the 60Hz timer tick, with
//! the per-instruction state transitions specified and verified.

use vstd::prelude::*;

pub mod emu;
pub mod laws;
pub mod semantics;

verus! {

/// Display mode selector kept for hosts that distinguish the classic machine
/// from the extended one; the interpreter core always drives one fixed-size
/// display buffer regardless of the mode.
#[allow(non_camel_case_types)]
#[derive(Copy, Clone)]
pub enum Mode {
    CHIP8,
    SCHIP8,
}

/// Width of the display buffer in pixels.
pub const GFX_W: usize = 128;

/// Height of the display buffer in pixels.
pub const GFX_H: usize = 64;

} // verus!
