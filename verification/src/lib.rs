//! A small compiler from arithmetic expressions to stack-machine assembly.
//!
//! Source text is scanned into tokens, the tokens are parsed into an
//! expression tree, and the tree is flattened post-order into instructions
//! for a two-register stack machine.

pub mod decimal;
pub mod token;
pub mod error;
pub mod lexical;
pub mod scanner;
pub mod ast;
pub mod grammar;
pub mod parser;
pub mod instruction;
pub mod codegen;
pub mod machine;
pub mod compiler;
