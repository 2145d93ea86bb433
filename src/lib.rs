//! A stack virtual machine for the flasm assembly language, with two memory
//! regions (per-thread local, process-wide global) and fork/join threads.
use vstd::prelude::*;

pub mod bytecode;
pub mod error;
pub mod fmt;
pub mod laws;
pub mod memory;
pub mod opcode;
pub mod parse;
pub mod program;
pub mod rand;
pub mod remote;
pub mod spawner;
pub mod state;
pub mod task;
pub mod text;
pub mod thread;
pub mod valsp;

pub use error::VmError;
pub use parse::{ParseError, ParseErrorKind};
pub use program::Program;
pub use thread::{Step, ThreadCtx, ThreadResult};

verus! {

/// The machine's only value type.
pub type Word = u64;

/// Size of a word in bytes; addresses are multiples of it.
pub const WORD_SIZE: Word = 8;

/// A thread's stack of words, top last.
pub type Stack = Vec<Word>;

/// The host-facing capabilities (network, disk) a machine runs with; the
/// machine itself asks nothing of them.
pub trait Eal: Send + Sync + 'static {}

} // verus!
