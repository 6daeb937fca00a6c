//! The conditions that stop the machine.

use vstd::prelude::*;

verus! {

/// Why an operation on the machine was refused.
///
/// Every operation that reports one of these leaves the machine exactly as
/// it found it.
#[derive(Clone, Copy, Debug, PartialEq, Eq, Structural)]
pub enum EmuError {
    /// The instruction word matches no instruction of the machine.
    UnimplementedOpcode { opcode: u16 },
    /// A call was made with all sixteen stack slots in use.
    StackOverflow,
    /// A return was made with no call outstanding.
    StackUnderflow,
    /// The two bytes at the program counter do not both lie in memory.
    ProgramCounterOutOfRange,
    /// An access through the index register reaches past the end of memory.
    MemoryOutOfRange,
    /// A register that names a key holds a value above fifteen.
    KeyOutOfRange,
    /// A program does not fit between the start address and the end of memory.
    ProgramTooLarge,
}

} // verus!
