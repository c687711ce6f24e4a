//! A front end for a small keyword-driven scripting language: it turns a
//! source text into a syntax tree, or into diagnostics that say precisely
//! what is wrong and where.
//!
//! The pipeline has three steps, each a function with a contract over the
//! bytes of the source text:
//!
//! - `lexer::tokenize` scans the text into tokens. What the tokens of a
//!   text are is defined in `lexer`; `stream` proves that they tile the text
//!   and that their positions never go backwards.
//! - `parser::parse` builds the tree that `grammar` describes and gathers
//!   one diagnostic for each statement that violates it; `progress` and
//!   `order` prove that parsing always moves forward and that diagnostics
//!   come back in source order.
//! - `render::render` shows a diagnostic against the source line it points
//!   at.
//!
//! `codegen` hands the functions of a program to LLVM, and `colors` styles
//! text for a terminal.

pub mod ast;
pub mod bytes;
pub mod codegen;
pub mod colors;
pub mod error;
pub mod grammar;
pub mod lexer;
pub mod order;
pub mod parser;
pub mod progress;
pub mod render;
pub mod span;
pub mod stream;
pub mod text;
pub mod tokens;
