//! A single-pass code generator for a minimal eight-symbol tape-machine
//! language: it walks the source characters once, resolves nested loop
//! constructs into paired, globally unique branch labels, decides the tape
//! size, and emits assembly text for a register-and-syscall target.

pub mod builder;
pub mod codegen;
pub mod config;
pub mod decimal;
pub mod emit;
pub mod labels;
pub mod laws;
pub mod source;
pub mod tape;
pub mod tokens;
