//! A small untyped lambda language: a tokenizer, a recursive-descent parser
//! and a tree-walking evaluator, each proved against a mathematical
//! definition of what it computes.
//!
//! - [`lexer`]: tokens, lexemes and the tokenizer.
//! - [`ast`]: the syntax tree and its model.
//! - [`parser`]: the parser, and what it returns on every input.
//! - [`grammar`]: the grammar read from the tree, and the proof that the
//!   parser reads exactly what the grammar writes.
//! - [`runtime`]: values, the meaning of evaluation, the interpreter that
//!   computes it, and the laws that hold of it.
//! - [`text`]: characters from code points and decimal numerals.
//!
//! Numbers are plain integers that can be applied like Church numerals:
//! `((3 f) x)` applies `f` three times to `x`. Closures capture the
//! bindings that are current when the lambda is evaluated; a name bound
//! later is invisible to them. A run writes text, which the interpreter
//! collects, and ends in success or in the first failure.

pub mod ast;
pub mod grammar;
pub mod lexer;
pub mod parser;
pub mod runtime;
pub mod text;
