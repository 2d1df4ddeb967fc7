//! Import statements of source modules: their tokens and the shape of a
//! parsed declaration.

pub mod parser;
pub mod tokenizer;
