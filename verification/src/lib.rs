//! An interpreter for the Brainfuck language.
//!
//! A program is parsed from raw bytes into a sequence of commands together
//! with a table that pairs every loop bracket with its partner, and is then
//! executed on a tape of byte cells addressed by a single data pointer.

pub mod command;
pub mod interpreter;
pub mod nesting;
pub mod program;

pub use crate::command::Command;
pub use crate::interpreter::Interpreter;
pub use crate::program::Program;
