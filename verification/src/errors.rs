use vstd::prelude::*;

verus! {

/// The ways a machine operation can fail. Every failure is reported to the
/// caller as a value, so a host can halt the virtual machine without the
/// process going down with it.
#[derive(Clone, Copy, Debug, PartialEq, Eq, Structural)]
pub enum ChipError {
    /// A memory address outside [0, 4096) or a register index outside [0, 16).
    OutOfBounds,
    /// A push onto a call stack that already holds 16 addresses.
    StackOverflow,
    /// A pop from an empty call stack.
    StackUnderflow,
    /// An instruction word whose header/sub-selector pair is not in the
    /// dispatch table.
    InvalidInstruction,
    /// A program image larger than the 3584 bytes of loadable memory.
    RomTooLarge,
}

} // verus!
