//! A small scripting language: a text is split into tokens, parsed into a
//! tree, and reduced to a value one step at a time over a stack of frames.
//!
//! `semantics` defines the step as a mathematical function, `interpreter`
//! computes it, and `laws` states what holds of every evaluation.

pub mod expr;
pub mod interpreter;
pub mod laws;
pub mod numbers;
pub mod parser;
pub mod repl;
pub mod runtime_error;
pub mod scoping;
pub mod semantics;
pub mod state;
