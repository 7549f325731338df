//! Lexer, parser and tree printer for a small C-like language.
pub mod token;
pub mod error;
pub mod node;
pub mod grammar;
pub mod progress;
pub mod shape;
pub mod parser;
pub mod text;
pub mod printer;
pub mod lexer;
