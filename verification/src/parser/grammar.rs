//! The grammar of expressions, as a function from a token stream to the tree
//! it denotes.
//!
//! Operators are arranged in a cascade of levels. From the loosest binding to
//! the tightest: addition, subtraction, multiplication, division,
//! exponentiation, and below them single values. Every level reads one
//! operand from the level below; if its own operator follows, it reads the
//! rest at its own level again, so a chain of one operator groups to the
//! right.

use vstd::prelude::*;
use crate::parser::ast::{ExpressionNode, ExpressionType};
use crate::parser::error::{Expected, ParseError};
use crate::parser::tokenizer::{Token, TokenType};

verus! {

/// A level of the cascade.
#[derive(Clone, Copy, Debug, PartialEq, Eq)]
pub enum Level {
    Addition,
    Subtraction,
    Multiplication,
    Division,
    Exponentiation,
}

impl Level {
    /// The number of levels below this one, values included.
    pub open spec fn height(self) -> nat {
        match self {
            Level::Addition => 5,
            Level::Subtraction => 4,
            Level::Multiplication => 3,
            Level::Division => 2,
            Level::Exponentiation => 1,
        }
    }

    /// The level that binds next tighter, or `None` where only values are
    /// left.
    pub open spec fn tighter(self) -> Option<Level> {
        match self {
            Level::Addition => Some(Level::Subtraction),
            Level::Subtraction => Some(Level::Multiplication),
            Level::Multiplication => Some(Level::Division),
            Level::Division => Some(Level::Exponentiation),
            Level::Exponentiation => None,
        }
    }

    /// The operator that this level owns: `+`, `-`, `*`, `/` and `^` have a
    /// level each.
    pub open spec fn operator(self) -> TokenType {
        match self {
            Level::Addition => TokenType::Add,
            Level::Subtraction => TokenType::Sub,
            Level::Multiplication => TokenType::Mul,
            Level::Division => TokenType::Div,
            Level::Exponentiation => TokenType::Exp,
        }
    }

    /// Whether a token is the operator that this level owns.
    pub open spec fn owns(self, token_type: TokenType) -> bool {
        token_type == self.operator()
    }

    /// The kind of node that this level builds.
    pub open spec fn expression_type(self) -> ExpressionType {
        match self {
            Level::Addition => ExpressionType::Add,
            Level::Subtraction => ExpressionType::Sub,
            Level::Multiplication => ExpressionType::Mul,
            Level::Division => ExpressionType::Div,
            Level::Exponentiation => ExpressionType::Exp,
        }
    }

    /// The level that builds nodes of the given kind, if there is one.
    pub open spec fn of(expression_type: ExpressionType) -> Option<Level> {
        match expression_type {
            ExpressionType::Add => Some(Level::Addition),
            ExpressionType::Sub => Some(Level::Subtraction),
            ExpressionType::Mul => Some(Level::Multiplication),
            ExpressionType::Div => Some(Level::Division),
            ExpressionType::Exp => Some(Level::Exponentiation),
            _ => None,
        }
    }

    /// The level of the given height, if there is one.
    pub open spec fn at(height: nat) -> Option<Level> {
        if height == 1 {
            Some(Level::Exponentiation)
        } else if height == 2 {
            Some(Level::Division)
        } else if height == 3 {
            Some(Level::Multiplication)
        } else if height == 4 {
            Some(Level::Subtraction)
        } else if height == 5 {
            Some(Level::Addition)
        } else {
            None
        }
    }

    /// The node that this level builds from two operands.
    pub open spec fn node(self, left: ExpressionNode, right: ExpressionNode) -> ExpressionNode {
        ExpressionNode::Binary {
            expression_type: self.expression_type(),
            left: Box::new(left),
            right: Box::new(right),
        }
    }
}

/// What the grammar gives for a place in a stream: a tree with the index
/// behind it, or an error.
pub type Reading = Result<(ExpressionNode, nat), ParseError>;

/// The error for a stream that lacks `expected` at index `pos`.
pub open spec fn failure(tokens: Seq<Token>, pos: nat, expected: Expected) -> ParseError {
    ParseError {
        expected,
        position: pos as usize,
        offset: if pos < tokens.len() {
            Some(tokens[pos as int].offset)
        } else {
            None
        },
    }
}

/// The value that starts at index `pos`, with the index behind it.
///
/// A value is a literal, or an expression between parentheses. A literal is
/// the one token at `pos`. Anything else in the place of a value, the end of
/// the stream included, is an error.
pub open spec fn parse_value(tokens: Seq<Token>, pos: nat) -> Reading
    decreases tokens.len() - pos, 0nat, 0nat,
{
    if pos >= tokens.len() {
        Err(failure(tokens, pos, Expected::Operand))
    } else {
        match tokens[pos as int].token_type {
            TokenType::LParen => match parse_level(tokens, pos + 1, Level::Addition) {
                Ok((inner, end)) => {
                    if end < tokens.len() && tokens[end as int].token_type is RParen {
                        Ok((inner, end + 1))
                    } else {
                        Err(failure(tokens, end, Expected::RParen))
                    }
                },
                Err(e) => Err(e),
            },
            TokenType::Int(_) => Ok((ExpressionNode::Leaf { tok: tokens[pos as int] }, pos + 1)),
            _ => Err(failure(tokens, pos, Expected::Operand)),
        }
    }
}

/// The left operand of the given level that starts at index `pos`: the
/// expression of the next tighter level, or a value where there is none.
pub open spec fn parse_operand(tokens: Seq<Token>, pos: nat, level: Level) -> Reading
    decreases tokens.len() - pos, level.height(), 0nat,
{
    match level.tighter() {
        Some(below) => parse_level(tokens, pos, below),
        None => parse_value(tokens, pos),
    }
}

/// The expression of the given level that starts at index `pos`, with the
/// index behind it.
///
/// If the token behind the left operand is the operator of this level, the
/// right operand is the expression of this same level behind the operator.
/// Any other token ends the expression and is left where it is.
///
/// An operand is never empty, so the test `pos < mid` always holds
/// (`lemma_level_reads_chain` states the function without it); it is written
/// out because the termination of the definition rests on it.
pub open spec fn parse_level(tokens: Seq<Token>, pos: nat, level: Level) -> Reading
    decreases tokens.len() - pos, level.height(), 1nat,
{
    match parse_operand(tokens, pos, level) {
        Ok((left, mid)) => {
            if pos < mid < tokens.len() && level.owns(tokens[mid as int].token_type) {
                match parse_level(tokens, mid + 1, level) {
                    Ok((right, end)) => Ok((level.node(left, right), end)),
                    Err(e) => Err(e),
                }
            } else {
                Ok((left, mid))
            }
        },
        Err(e) => Err(e),
    }
}

/// The expression that starts at index `pos`: that of the loosest level.
pub open spec fn parse_expression(tokens: Seq<Token>, pos: nat) -> Reading {
    parse_level(tokens, pos, Level::Addition)
}

/// What holds of an outcome of the grammar that started at index `pos`: a
/// tree is well formed and ends behind `pos`, within the stream; an error
/// lies at or behind `pos`, within the stream or at its end, and reports
/// the token found there. The place of an error is stated for a stream whose
/// indices fit the error's `position`.
pub open spec fn outcome_in_bounds(
    tokens: Seq<Token>,
    pos: nat,
    outcome: Reading,
) -> bool {
    match outcome {
        Ok((tree, end)) => pos < end <= tokens.len() && tree.wf(),
        Err(e) => tokens.len() <= usize::MAX ==> {
            &&& pos <= e.position <= tokens.len()
            &&& e == failure(tokens, e.position as nat, e.expected)
        },
    }
}

/// A value is never empty, lies within the stream and is well formed; an
/// error lies between the start and the end of the stream.
pub proof fn lemma_parse_value_bounds(tokens: Seq<Token>, pos: nat)
    requires
        pos <= tokens.len(),
    ensures
        outcome_in_bounds(tokens, pos, parse_value(tokens, pos)),
    decreases tokens.len() - pos, 0nat, 0nat,
{
    if pos < tokens.len() && tokens[pos as int].token_type is LParen {
        lemma_parse_bounds(tokens, pos + 1, Level::Addition);
    }
}

/// A left operand is never empty, lies within the stream and is well formed;
/// an error lies between the start and the end of the stream.
pub proof fn lemma_parse_operand_bounds(tokens: Seq<Token>, pos: nat, level: Level)
    requires
        pos <= tokens.len(),
    ensures
        outcome_in_bounds(tokens, pos, parse_operand(tokens, pos, level)),
    decreases tokens.len() - pos, level.height(), 0nat,
{
    match level.tighter() {
        Some(below) => lemma_parse_bounds(tokens, pos, below),
        None => lemma_parse_value_bounds(tokens, pos),
    }
}

/// An expression of any level is never empty, lies within the stream and is
/// well formed; an error lies between the start and the end of the stream.
pub proof fn lemma_parse_bounds(tokens: Seq<Token>, pos: nat, level: Level)
    requires
        pos <= tokens.len(),
    ensures
        outcome_in_bounds(tokens, pos, parse_level(tokens, pos, level)),
    decreases tokens.len() - pos, level.height(), 1nat,
{
    lemma_parse_operand_bounds(tokens, pos, level);
    if let Ok((_, mid)) = parse_operand(tokens, pos, level) {
        if mid < tokens.len() && level.owns(tokens[mid as int].token_type) {
            lemma_parse_bounds(tokens, mid + 1, level);
        }
    }
}

/// An expression of a level is a chain: a left operand; then, if the
/// operator of the level follows, the operator and the expression of the
/// same level behind it, which becomes the right operand. So operators of
/// one level group to the right.
pub proof fn lemma_level_reads_chain(tokens: Seq<Token>, pos: nat, level: Level)
    requires
        pos <= tokens.len(),
    ensures
        parse_level(tokens, pos, level) == match parse_operand(tokens, pos, level) {
            Ok((left, mid)) => {
                if mid < tokens.len() && level.owns(tokens[mid as int].token_type) {
                    match parse_level(tokens, mid + 1, level) {
                        Ok((right, end)) => Ok((level.node(left, right), end)),
                        Err(e) => Err(e),
                    }
                } else {
                    Ok((left, mid))
                }
            },
            Err(e) => Err(e),
        },
{
    lemma_parse_operand_bounds(tokens, pos, level);
}

} // verus!
