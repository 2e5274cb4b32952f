//! A front end for the oxygen language: a tokenizer that turns source lines into tokens, and
//! a recursive-descent parser that turns the tokens of a file into statements.

pub mod cmdline;
pub mod error;
pub mod grammar;
pub mod lexer;
pub mod node;
pub mod parser;
pub mod token;
