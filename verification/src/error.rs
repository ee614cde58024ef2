use vstd::prelude::*;

verus! {

/// The conditions that stop the machine. After any of them the machine is
/// left exactly as it was before the failing call.
#[derive(Clone, Copy, Debug, PartialEq, Eq, Structural)]
pub enum Chip8Error {
    /// A program does not fit between the load address and the end of memory.
    ProgramTooLarge,
    /// A key index outside 0..=15 was given, or read from a register by a
    /// key instruction.
    InvalidKeyIndex,
    /// A call was executed with all sixteen stack entries in use.
    CallStackOverflow,
    /// A return was executed with no call outstanding.
    CallStackUnderflow,
    /// An instruction fetch, a sprite, or a block transfer reaches past the
    /// end of memory.
    MemoryOutOfBounds,
    /// An addition to the index register leaves the 16-bit range.
    IndexOverflow,
}

/// What a completed cycle has to report to the driver.
#[derive(Clone, Copy, Debug, PartialEq, Eq, Structural)]
pub enum Outcome {
    /// The fetched word was one of the known instructions and was executed.
    Executed,
    /// The fetched word matches no instruction; it was skipped.
    UnrecognizedOpcode(u16),
}

} // verus!
