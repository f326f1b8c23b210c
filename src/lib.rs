//! A single-pass compiler and stack machine for a small dynamically typed
//! scripting language: source text is scanned into tokens, compiled by a
//! precedence-climbing parser straight into a bytecode chunk, and executed
//! against an operand stack and a table of global variables.
pub mod chunk;
pub mod compiler;
pub mod error;
pub mod parse;
pub mod scanner;
pub mod text;
pub mod token;
pub mod vm;
