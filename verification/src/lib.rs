//! A superoptimizer for a small register machine.
//!
//! The crate is built around a deterministic virtual machine: a fixed-size
//! memory of 8-bit cells, a compact instruction set with textual and binary
//! encodings, and an executor guarded by a step budget.  On top of the
//! machine sit several search strategies (exhaustive enumeration, random
//! sampling, hill climbing and a genetic search) that look for the shortest
//! program whose final machine state equals that of a given input program.
//! A small source-language front end (lexer, recursive-descent parser,
//! abstract syntax tree and pretty-printer) accompanies the machine.

pub mod ast;
pub mod bench;
pub mod cli;
pub mod compiler;
pub mod error;
pub mod gen;
pub mod instruction;
pub mod lexer;
pub mod optimizers;
pub mod parser;
pub mod pretty;
pub mod program;
pub mod rng;
pub mod superoptimizer;
pub mod text;
pub mod token;
pub mod time;
pub mod vm;
