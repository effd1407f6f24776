//! Front end of an interpreter for a small C-family scripting language:
//! a lexer from source text to tokens, and a parser from tokens to a
//! syntax tree, each with its behaviour stated over a mathematical model.
pub mod token;
pub mod lexer;
pub mod ast;
pub mod parser;
