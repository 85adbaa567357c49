//! A lexer and recursive-descent parser for a small arithmetic expression
//! language: single-digit integer literals, the operators `+ - * / ^`, and
//! parentheses.
//!
//! `parser::tokenizer::tokenize_string` turns source text into tokens, one
//! per character. `parser::ast::Parser` turns tokens into an expression
//! tree, and the tree renders as a fully parenthesized text such as
//! `Add(1, Mul(2, 3))`.
//!
//! What the parser reads is defined in `parser::grammar`. The other modules
//! of `parser` prove what follows from the definitions: that whitespace does
//! not matter, that a tree holds the tokens it was read from in their order,
//! and that every well-formed tree can be written as tokens that are read
//! back as that tree.

pub mod parser;
