//! A small scripting language: a lexical scanner, a recursive-descent parser
//! with precedence climbing, and a tree-walking evaluator over a stack of
//! lexical scopes.
//!
//! The language semantics is stated as a family of spec-level functions (a
//! big-step semantics with a step budget), and every executable stage is
//! proved to compute exactly what the semantics says.

pub mod ast;
pub mod error;
pub mod interpreter;
pub mod laws;
pub mod lexer;
pub mod parser;
pub mod render;
pub mod semantics;
pub mod stdlib;
pub mod token;
pub mod value;
