//! The Universal Machine: an interpreter for its fourteen operations on eight
//! registers and a segmented memory of 32-bit words, and an assembler from
//! lines of mnemonics to the machine's programs.
//!
//! The machine does no input and no output of its own. It runs until an
//! instruction asks for a byte or emits one, and its caller reads and writes.

pub mod assembler;
pub mod buildtests;
pub mod image;
pub mod instruction;
pub mod memory;
pub mod um;
