use vstd::prelude::*;

verus! {

/// The error conditions of the machine.
///
/// All of them are fatal to the running program: the engine transitions to
/// a halted state and every later step reports the same fault again. An
/// unknown opcode is deliberately not a fault — it is reported through
/// [`StepOutcome::UnknownInstruction`] and execution continues.
#[derive(Clone, Copy, Debug, PartialEq, Eq)]
pub enum Fault {
    /// An address computation escaped the 4096-byte memory.
    OutOfBounds,
    /// A general-purpose register index outside `[0, 16)`.
    InvalidRegister,
    /// A keypad index outside `[0, 16)`.
    InvalidKey,
    /// A subroutine call arrived while the call stack was at capacity.
    StackOverflow,
    /// A return arrived while the call stack was empty.
    StackUnderflow,
    /// A program image does not fit between the load address and the end
    /// of memory.
    ProgramTooLarge,
}

/// What one successful step of the engine reports.
#[derive(Clone, Copy, Debug, PartialEq, Eq)]
pub enum StepOutcome {
    /// The fetched word decoded to a known instruction, which was executed.
    Executed,
    /// The fetched word decodes to no known instruction. The machine state
    /// is unchanged apart from the normal program counter advance; the word
    /// is carried so a host can surface it for debugging.
    UnknownInstruction(u16),
}

} // verus!
