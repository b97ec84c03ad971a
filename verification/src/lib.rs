//! A command-line shell's core, verified: the tokenizer that splits a line
//! into words, quoted runs and operators; the precedence-climbing parser
//! that builds the command tree; the command model itself; and the pure
//! decisions of the execution engine — descriptor defaults, open modes,
//! short-circuiting and status propagation. The process work around these
//! (forking, piping, waiting) lives with the caller, which feeds every
//! choice through the functions verified here.

pub mod command;
pub mod engine;
pub mod lexer;
pub mod parser;
