//! From source text to the tree that the evaluator walks.

pub mod ast_utils;
pub mod tokens;
pub mod char_stream;
pub mod tokeniser;
pub mod grammar;
pub mod parser;
pub mod parser_helpers;
pub mod printer;
