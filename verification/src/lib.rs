//! A CHIP-8 virtual machine core: instruction decoder, register machine and
//! framebuffer, with every host interaction going through small capability
//! traits so that the interpreter can be driven without real I/O.

use vstd::prelude::*;

pub mod display;
pub mod host;
pub mod instruction;
pub mod laws;
pub mod machine;
pub mod rng;
pub mod state;

pub use display::{u8_to_bool_array, DebugDisplay, Display, DisplayBuffer};
pub use host::{Beeper, DebugBeeper, DebugKeypad, DebugTimer, Keypad, Timer};
pub use instruction::Instruction;
pub use machine::{Chip8Error, HostReply, HostRequest, Machine, Quirks, DEFAULT_FONT};
pub use rng::{RandomSource, RngWrapper, SeededRng};
pub use state::State;

verus! {

/// Sum of two sizes.
pub fn add(left: usize, right: usize) -> (sum: usize)
    requires
        left + right <= usize::MAX,
    ensures
        sum == left + right,
{
    left + right
}

} // verus!
