//! The failures that the library reports.

use vstd::prelude::*;

verus! {

/// Why an operation on the machine could not be carried out.
#[derive(Debug, Clone, Copy, PartialEq, Eq, Structural)]
pub enum Chip8Error {
    /// The fetched word matches no instruction; it carries the word.
    UnknownOpcode(u16),
    /// A call was made with all sixteen stack slots in use.
    StackOverflow,
    /// A return was made with an empty stack.
    StackUnderflow,
    /// A memory access fell outside the machine's memory.
    OutOfBounds,
    /// A program image does not fit between the load origin and the end of memory.
    ProgramTooLarge,
}

} // verus!
