//! A verified interpreter for a small line-oriented BASIC-style language:
//! a character-level lexer, a recursive-descent parser with a label table,
//! and a tree-walking evaluator driven by a program counter.

pub mod ast;
pub mod interpreter;
pub mod laws;
pub mod numbers;
pub mod parser;
pub mod tables;
pub mod text;
pub mod token;
pub mod tokenizer;
pub mod value;
