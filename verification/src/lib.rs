//! A CHIP-8 virtual machine core: the architectural state of the machine,
//! its instruction set, and the two clocks that drive it.
//!
//! A host makes an [`Emu`], places a program in its memory with
//! [`Emu::load`], and then calls [`Emu::tick`] once per instruction and
//! [`Emu::tick_timers`] sixty times a second. It shows what
//! [`Emu::get_display`] returns and reports key presses with
//! [`Emu::set_key`].

use vstd::prelude::*;

pub mod cpu;
pub mod display;
mod entropy;
pub mod error;
pub mod laws;
pub mod machine;
pub mod model;
pub mod opcode;
pub mod semantics;

pub use cpu::bcd_digits;
pub use error::EmuError;
pub use machine::Emu;
pub use model::{SCREEN_HEIGHT, SCREEN_WIDTH};
pub use opcode::{decode, Instruction};

verus! {

/// The sum of two unsigned integers that is known not to overflow.
pub fn add(left: u64, right: u64) -> (sum: u64)
    requires
        left + right <= u64::MAX,
    ensures
        sum == left + right,
{
    left + right
}

} // verus!
