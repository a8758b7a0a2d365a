use vstd::prelude::*;

verus! {

/// What went wrong, without the message text: the form in which contracts
/// speak of errors.
#[derive(PartialEq, Eq, Structural, Clone, Copy, Debug)]
pub enum ErrorKind {
    Decode(u16),
    MemoryAccess,
    StackOverflow,
    StackUnderflow,
    ProgramTooLarge,
}

/// Errors reported by the decoder, by `step` and by program loading.
#[derive(Debug)]
pub enum Chip8Error {
    /// An instruction word outside the recognised set, with a reason and the word.
    DecodeError(String, u16),
    /// A fetch, sprite read, BCD store or register block transfer past the end of memory.
    MemoryAccessError,
    /// A call with the call stack already full.
    StackOverflowError,
    /// A return with an empty call stack.
    StackUnderflowError,
    /// A program larger than the memory window above the reserved area.
    ProgramTooLargeError,
}

impl Chip8Error {
    pub open spec fn kind(&self) -> ErrorKind {
        match self {
            Chip8Error::DecodeError(_, w) => ErrorKind::Decode(*w),
            Chip8Error::MemoryAccessError => ErrorKind::MemoryAccess,
            Chip8Error::StackOverflowError => ErrorKind::StackOverflow,
            Chip8Error::StackUnderflowError => ErrorKind::StackUnderflow,
            Chip8Error::ProgramTooLargeError => ErrorKind::ProgramTooLarge,
        }
    }

    /// Builds the error value of the given kind.
    pub fn from_kind(k: ErrorKind) -> (r: Chip8Error)
        ensures
            r.kind() == k,
    {
        match k {
            ErrorKind::Decode(w) => Chip8Error::DecodeError(String::from_str("unknown instruction"), w),
            ErrorKind::MemoryAccess => Chip8Error::MemoryAccessError,
            ErrorKind::StackOverflow => Chip8Error::StackOverflowError,
            ErrorKind::StackUnderflow => Chip8Error::StackUnderflowError,
            ErrorKind::ProgramTooLarge => Chip8Error::ProgramTooLargeError,
        }
    }

    /// A short human-readable description of the error.
    pub fn message(&self) -> (r: String)
        ensures
            self matches Chip8Error::DecodeError(reason, _) ==> r@ == reason@,
    {
        match self {
            Chip8Error::DecodeError(reason, _) => reason.clone(),
            Chip8Error::MemoryAccessError => String::from_str("memory access out of bounds"),
            Chip8Error::StackOverflowError => String::from_str("call stack overflow"),
            Chip8Error::StackUnderflowError => String::from_str("return with empty call stack"),
            Chip8Error::ProgramTooLargeError => String::from_str("program too large for memory"),
        }
    }
}

} // verus!
