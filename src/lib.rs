//! Arithmetic expressions: a tokenizer, a recursive-descent parser producing a
//! typed syntax tree, and the post-order program that an evaluator runs.

pub mod text;
pub mod span;
pub mod token;
pub mod error;
pub mod lexer;
pub mod ast;
pub mod parser;
pub mod postfix;
pub mod display;
pub mod naming;
pub mod env;
