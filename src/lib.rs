//! Front end and C code generator for a small statically typed,
//! expression-oriented language with generic primitive operators and
//! parametric list types.
pub mod types;
pub mod ast;
pub mod error;
pub mod symbols;
pub mod compiler;
pub mod tokens;
pub mod parser;
pub mod scanner;
pub mod program;
pub mod laws;
