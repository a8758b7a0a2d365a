//! Core of an 8-bit register machine with a fixed 35-opcode instruction set:
//! a decoder from 16-bit words to instructions and an execution engine whose
//! every step is stated against a mathematical model of the machine state.

pub mod chip8;
pub mod error;
pub mod inst;
pub mod lemmas;

pub use chip8::Chip8;
pub use error::Chip8Error;
pub use inst::Instruction;
