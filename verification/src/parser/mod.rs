//! The pipeline from source text to expression tree.

pub mod ast;
pub mod error;
pub mod grammar;
pub mod laws;
pub mod reading;
pub mod tokenizer;
pub mod writing;
