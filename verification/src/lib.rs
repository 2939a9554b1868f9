//! A single-pass JIT compiler for a small procedural language.
//!
//! Source bytes are lexed into tokens, parsed into an abstract syntax tree,
//! lowered through a typed high-level IR and a register-oriented low-level IR,
//! and finally encoded as x86-64 machine code together with the byte offset of
//! the entry point.  Running the emitted bytes is left to the embedding
//! program; everything up to that point is verified.

pub mod ast;
pub mod error;
pub mod hlir;
pub mod lexer;
pub mod llir;
pub mod lowerer;
pub mod operator;
pub mod parser;
pub mod token;
pub mod x86_64;
