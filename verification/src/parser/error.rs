//! Typed failures of lexing and parsing.

use vstd::prelude::*;

verus! {

/// A character that belongs to no token.
#[derive(Clone, Copy, Debug, PartialEq, Eq)]
pub struct LexError {
    /// The offending character.
    pub character: char,
    /// Its 0-based character offset in the source.
    pub offset: usize,
}

/// What the parser needed where it stopped.
#[derive(Clone, Copy, Debug, PartialEq, Eq)]
pub enum Expected {
    /// An operand: a literal or an opening parenthesis.
    Operand,
    /// The parenthesis that closes a group.
    RParen,
}

/// A token stream that is not an expression.
#[derive(Clone, Copy, Debug, PartialEq, Eq)]
pub struct ParseError {
    /// What was needed.
    pub expected: Expected,
    /// Index in the token stream where it was needed; the length of the
    /// stream where the stream ended too early.
    pub position: usize,
    /// Character offset in the source of the token found there instead, or
    /// `None` where the stream had ended.
    pub offset: Option<usize>,
}

} // verus!
