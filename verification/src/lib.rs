//! A small stack machine: a closed instruction set run against one sequence of
//! tagged integer slots that serves both as operand stack and as variable store.
//!
//! `semantics` says what a program means; `machine` and `interpreter` run it,
//! proved against that meaning; `laws` holds what follows for every run.
//! `text` gives the output its printed form. `lines` is apart from the
//! machine: it counts the lines of files picked by the end of their names.

pub mod instruction;
pub mod interpreter;
pub mod laws;
pub mod lines;
pub mod machine;
pub mod semantics;
pub mod stack;
pub mod text;
pub mod value;

pub use instruction::{ByteCode, Fault, Output, Status};
pub use interpreter::{interpret, interpret_within, Execution};
pub use machine::Machine;
pub use stack::Stack;
pub use text::render;
pub use value::Data;
