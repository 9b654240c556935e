//! A minimal Lisp-family expression interpreter: a tokenizer, a recursive
//! descent parser and an evaluator over a flat symbol environment.
//!
//! Numbers are IEEE-754 double-precision values, carried everywhere as their
//! 64-bit encodings so that every rule of the interpreter can be stated and
//! checked over plain integers.

pub mod ast;
pub mod bits;
pub mod env;
pub mod eval;
pub mod err;
pub mod laws;
pub mod lexer;
pub mod num;
pub mod parser;
pub mod render;
