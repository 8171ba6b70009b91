//! A compiler and execution engine for a minimal eight-instruction tape
//! machine language.
//!
//! Source text is lexed into instructions, every loop bracket is resolved to
//! the position of its matching partner, and the resolved program is run
//! against a tape of bytes.
//!
//! The tape is growable: it starts as one zero cell and is extended by a zero
//! cell at whichever end the data pointer leaves it. Cells hold eight bits
//! and wrap around. An input instruction that finds the input at its end
//! fails.
//!
//! The library does no reading or writing of its own. [`State::step`] takes
//! the byte that was read and hands back the byte to write, so that a caller
//! can run a program against any source and sink; [`execute`] runs a program
//! over input that is known in advance, within a budget of steps.

pub mod compiler;
pub mod engine;
pub mod error;
pub mod instruction;
pub mod machine;
pub mod nesting;

pub use compiler::{brackets_are_balanced, compile, match_brackets};
pub use engine::{execute, first_byte};
pub use error::{CompileError, RuntimeError};
pub use instruction::{parse_character, Bytecode, Instruction};
pub use machine::State;
