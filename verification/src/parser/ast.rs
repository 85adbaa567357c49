//! The expression tree and its structural rendering.

use vstd::prelude::*;
use crate::parser::error::{Expected, ParseError};
use crate::parser::grammar::{
    failure, lemma_parse_bounds, lemma_parse_operand_bounds, parse_expression, parse_level,
    parse_value, Level, Reading,
};
use crate::parser::tokenizer::{Token, TokenType};

verus! {

/// The kinds of statement. Only `Expression` occurs in a tree so far.
#[derive(Clone, Copy, Debug, PartialEq, Eq)]
pub enum StatementType {
    Declaration,
    FuncDef,
    Expression,
}

/// The kinds of expression. A tree holds `Int` leaves and the five
/// arithmetic operators; the other kinds are reserved.
#[derive(Clone, Copy, Debug, PartialEq, Eq)]
pub enum ExpressionType {
    VarAccess,
    VarAssign,
    Add,
    Sub,
    Mul,
    Div,
    Exp,
    Int,
    FuncCall,
}

impl ExpressionType {
    /// The spelling of the kind in a rendered tree.
    pub open spec fn name(self) -> Seq<char> {
        match self {
            ExpressionType::VarAccess => "VarAccess"@,
            ExpressionType::VarAssign => "VarAssign"@,
            ExpressionType::Add => "Add"@,
            ExpressionType::Sub => "Sub"@,
            ExpressionType::Mul => "Mul"@,
            ExpressionType::Div => "Div"@,
            ExpressionType::Exp => "Exp"@,
            ExpressionType::Int => "Int"@,
            ExpressionType::FuncCall => "FuncCall"@,
        }
    }

    /// Whether the kind is one of the five binary operators.
    pub open spec fn is_operator(self) -> bool {
        self is Add || self is Sub || self is Mul || self is Div || self is Exp
    }

    /// The spelling of the kind in a rendered tree.
    pub fn spelling(&self) -> (text: &'static str)
        ensures
            text@ == self.name(),
    {
        match self {
            ExpressionType::VarAccess => "VarAccess",
            ExpressionType::VarAssign => "VarAssign",
            ExpressionType::Add => "Add",
            ExpressionType::Sub => "Sub",
            ExpressionType::Mul => "Mul",
            ExpressionType::Div => "Div",
            ExpressionType::Exp => "Exp",
            ExpressionType::Int => "Int",
            ExpressionType::FuncCall => "FuncCall",
        }
    }
}

/// Something that can stand as a statement.
pub trait Statement {
    fn statement_type(&self) -> StatementType;
}

/// Something that has an expression kind.
pub trait Expression {
    fn expression_type(&self) -> ExpressionType;
}

/// An expression used as a statement, which can be rendered as text.
pub trait ExpressionStatement: Expression + Statement {
    fn render(&self) -> String;
}

/// A node of the expression tree.
#[derive(Debug, PartialEq, Eq)]
pub enum ExpressionNode {
    /// An integer literal, holding the token it was read from.
    Leaf { tok: Token },
    /// An operator applied to two operands.
    Binary {
        expression_type: ExpressionType,
        left: Box<ExpressionNode>,
        right: Box<ExpressionNode>,
    },
}

impl ExpressionNode {
    /// The kind of the node: `Int` for a leaf, the operator for a binary node.
    pub open spec fn kind(self) -> ExpressionType {
        match self {
            ExpressionNode::Leaf { .. } => ExpressionType::Int,
            ExpressionNode::Binary { expression_type, .. } => expression_type,
        }
    }

    /// A well-formed tree has literal tokens at its leaves and one of the
    /// five operators at every other node.
    pub open spec fn wf(self) -> bool
        decreases self,
    {
        match self {
            ExpressionNode::Leaf { tok } => tok.token_type is Int,
            ExpressionNode::Binary { expression_type, left, right } => {
                &&& expression_type.is_operator()
                &&& left.wf()
                &&& right.wf()
            },
        }
    }

    /// The structural form of the tree: a leaf is written as its token, a
    /// binary node as `Name(left, right)`.
    pub open spec fn rendered(self) -> Seq<char>
        decreases self,
    {
        match self {
            ExpressionNode::Leaf { tok } => tok.rendered(),
            ExpressionNode::Binary { expression_type, left, right } => {
                expression_type.name() + "("@ + left.rendered() + ", "@ + right.rendered() + ")"@
            },
        }
    }

    /// Appends the structural form of the tree to `out`.
    pub fn render_into(&self, out: &mut String)
        ensures
            final(out)@ == old(out)@ + self.rendered(),
        decreases self,
    {
        match self {
            ExpressionNode::Leaf { tok } => tok.token_type.render_into(out),
            ExpressionNode::Binary { expression_type, left, right } => {
                out.append(expression_type.spelling());
                out.append("(");
                left.render_into(out);
                out.append(", ");
                right.render_into(out);
                out.append(")");
            },
        }
    }
}

impl Statement for ExpressionNode {
    /// Every node of the tree is an expression statement.
    fn statement_type(&self) -> (t: StatementType)
        ensures
            t == StatementType::Expression,
    {
        StatementType::Expression
    }
}

impl Expression for ExpressionNode {
    fn expression_type(&self) -> (t: ExpressionType)
        ensures
            t == self.kind(),
    {
        match self {
            ExpressionNode::Leaf { .. } => ExpressionType::Int,
            ExpressionNode::Binary { expression_type, .. } => *expression_type,
        }
    }
}

impl ExpressionStatement for ExpressionNode {
    /// The structural form of the tree. It depends on the tree alone, so
    /// rendering a tree again gives the same text.
    fn render(&self) -> (text: String)
        ensures
            text@ == self.rendered(),
    {
        let mut text = String::new();
        self.render_into(&mut text);
        text
    }
}

/// A cursor over a token stream that reads expressions from it.
///
/// The cursor only moves forward, and the stream is never changed.
pub struct Parser {
    tokens: Vec<Token>,
    pos: usize,
}

impl Parser {
    #[verifier::type_invariant]
    spec fn cursor_in_stream(self) -> bool {
        self.pos <= self.tokens.len()
    }

    /// The token stream.
    pub closed spec fn tokens(&self) -> Seq<Token> {
        self.tokens@
    }

    /// The index of the token under the cursor; the length of the stream
    /// once all of it is read.
    pub closed spec fn spec_position(&self) -> usize {
        self.pos
    }

    /// A result together with the position the cursor has reached, in the
    /// form in which the grammar states its outcomes.
    pub open spec fn outcome(&self, r: Result<ExpressionNode, ParseError>) -> Reading {
        match r {
            Ok(tree) => Ok((tree, self.position() as nat)),
            Err(e) => Err(e),
        }
    }

    /// A parser with its cursor on the first token of the stream.
    pub fn from(tokens: Vec<Token>) -> (parser: Parser)
        ensures
            parser.tokens() == tokens@,
            parser.position() == 0,
    {
        Parser { tokens, pos: 0 }
    }

    /// The index of the token under the cursor.
    #[verifier::when_used_as_spec(spec_position)]
    pub fn position(&self) -> (p: usize)
        ensures
            p == self.position(),
            p <= self.tokens().len(),
    {
        proof {
            use_type_invariant(self);
        }
        self.pos
    }

    /// Whether the cursor is behind the last token.
    pub fn at_end(&self) -> (b: bool)
        ensures
            b == (self.position() == self.tokens().len()),
            self.position() <= self.tokens().len(),
    {
        proof {
            use_type_invariant(self);
        }
        self.pos >= self.tokens.len()
    }

    /// Reads the expression that starts under the cursor and leaves the
    /// cursor behind it.
    ///
    /// The tree is the one that the grammar gives for the stream from the
    /// cursor on. Tokens behind the expression are left unread: `at_end`
    /// tells whether there are any, `position` how far the expression went.
    /// On failure the cursor rests where the error lies.
    pub fn parse(&mut self) -> (r: Result<ExpressionNode, ParseError>)
        ensures
            final(self).tokens() == old(self).tokens(),
            final(self).outcome(r) == parse_expression(
                old(self).tokens(),
                old(self).position() as nat,
            ),
            r matches Ok(tree) ==> tree.wf() && old(self).position() < final(self).position(),
            r matches Err(e) ==> e.position == final(self).position(),
    {
        proof {
            use_type_invariant(&*self);
            lemma_parse_bounds(self.tokens(), self.position() as nat, Level::Addition);
        }
        self.make_expression()
    }

    /// Reads an expression: that of the loosest level.
    fn make_expression(&mut self) -> (r: Result<ExpressionNode, ParseError>)
        ensures
            final(self).tokens() == old(self).tokens(),
            final(self).outcome(r) == parse_level(
                old(self).tokens(),
                old(self).position() as nat,
                Level::Addition,
            ),
            r matches Err(e) ==> e.position == final(self).position(),
        decreases old(self).tokens().len() - old(self).position(), 6nat,
    {
        self.make_addition()
    }

    /// Reads a chain of `+`, whose operands are subtractions.
    fn make_addition(&mut self) -> (r: Result<ExpressionNode, ParseError>)
        ensures
            final(self).tokens() == old(self).tokens(),
            final(self).outcome(r) == parse_level(
                old(self).tokens(),
                old(self).position() as nat,
                Level::Addition,
            ),
            r matches Err(e) ==> e.position == final(self).position(),
        decreases old(self).tokens().len() - old(self).position(), 5nat,
    {
        proof {
            use_type_invariant(&*self);
            lemma_parse_operand_bounds(self.tokens(), self.position() as nat, Level::Addition);
        }
        let left = self.make_subtraction()?;
        if self.at_end() {
            return Ok(left);
        }
        match self.tokens[self.pos].token_type {
            TokenType::Add => {
                self.next();
                let right = self.make_addition()?;
                Ok(
                    ExpressionNode::Binary {
                        expression_type: ExpressionType::Add,
                        left: Box::new(left),
                        right: Box::new(right),
                    },
                )
            },
            _ => Ok(left),
        }
    }

    /// Reads a chain of `-`, whose operands are multiplications.
    fn make_subtraction(&mut self) -> (r: Result<ExpressionNode, ParseError>)
        ensures
            final(self).tokens() == old(self).tokens(),
            final(self).outcome(r) == parse_level(
                old(self).tokens(),
                old(self).position() as nat,
                Level::Subtraction,
            ),
            r matches Err(e) ==> e.position == final(self).position(),
        decreases old(self).tokens().len() - old(self).position(), 4nat,
    {
        proof {
            use_type_invariant(&*self);
            lemma_parse_operand_bounds(self.tokens(), self.position() as nat, Level::Subtraction);
        }
        let left = self.make_multiplication()?;
        if self.at_end() {
            return Ok(left);
        }
        match self.tokens[self.pos].token_type {
            TokenType::Sub => {
                self.next();
                let right = self.make_subtraction()?;
                Ok(
                    ExpressionNode::Binary {
                        expression_type: ExpressionType::Sub,
                        left: Box::new(left),
                        right: Box::new(right),
                    },
                )
            },
            _ => Ok(left),
        }
    }

    /// Reads a chain of `*`, whose operands are divisions.
    fn make_multiplication(&mut self) -> (r: Result<ExpressionNode, ParseError>)
        ensures
            final(self).tokens() == old(self).tokens(),
            final(self).outcome(r) == parse_level(
                old(self).tokens(),
                old(self).position() as nat,
                Level::Multiplication,
            ),
            r matches Err(e) ==> e.position == final(self).position(),
        decreases old(self).tokens().len() - old(self).position(), 3nat,
    {
        proof {
            use_type_invariant(&*self);
            lemma_parse_operand_bounds(
                self.tokens(),
                self.position() as nat,
                Level::Multiplication,
            );
        }
        let left = self.make_division()?;
        if self.at_end() {
            return Ok(left);
        }
        match self.tokens[self.pos].token_type {
            TokenType::Mul => {
                self.next();
                let right = self.make_multiplication()?;
                Ok(
                    ExpressionNode::Binary {
                        expression_type: ExpressionType::Mul,
                        left: Box::new(left),
                        right: Box::new(right),
                    },
                )
            },
            _ => Ok(left),
        }
    }

    /// Reads a chain of `/`, whose operands are exponentiations.
    fn make_division(&mut self) -> (r: Result<ExpressionNode, ParseError>)
        ensures
            final(self).tokens() == old(self).tokens(),
            final(self).outcome(r) == parse_level(
                old(self).tokens(),
                old(self).position() as nat,
                Level::Division,
            ),
            r matches Err(e) ==> e.position == final(self).position(),
        decreases old(self).tokens().len() - old(self).position(), 2nat,
    {
        proof {
            use_type_invariant(&*self);
            lemma_parse_operand_bounds(self.tokens(), self.position() as nat, Level::Division);
        }
        let left = self.make_exponentation()?;
        if self.at_end() {
            return Ok(left);
        }
        match self.tokens[self.pos].token_type {
            TokenType::Div => {
                self.next();
                let right = self.make_division()?;
                Ok(
                    ExpressionNode::Binary {
                        expression_type: ExpressionType::Div,
                        left: Box::new(left),
                        right: Box::new(right),
                    },
                )
            },
            _ => Ok(left),
        }
    }

    /// Reads a chain of `^`, whose operands are values.
    fn make_exponentation(&mut self) -> (r: Result<ExpressionNode, ParseError>)
        ensures
            final(self).tokens() == old(self).tokens(),
            final(self).outcome(r) == parse_level(
                old(self).tokens(),
                old(self).position() as nat,
                Level::Exponentiation,
            ),
            r matches Err(e) ==> e.position == final(self).position(),
        decreases old(self).tokens().len() - old(self).position(), 1nat,
    {
        proof {
            use_type_invariant(&*self);
            lemma_parse_operand_bounds(
                self.tokens(),
                self.position() as nat,
                Level::Exponentiation,
            );
        }
        let left = self.make_value()?;
        if self.at_end() {
            return Ok(left);
        }
        match self.tokens[self.pos].token_type {
            TokenType::Exp => {
                self.next();
                let right = self.make_exponentation()?;
                Ok(
                    ExpressionNode::Binary {
                        expression_type: ExpressionType::Exp,
                        left: Box::new(left),
                        right: Box::new(right),
                    },
                )
            },
            _ => Ok(left),
        }
    }

    /// Reads a value: the literal under the cursor, or an expression
    /// between parentheses.
    fn make_value(&mut self) -> (r: Result<ExpressionNode, ParseError>)
        ensures
            final(self).tokens() == old(self).tokens(),
            final(self).outcome(r) == parse_value(
                old(self).tokens(),
                old(self).position() as nat,
            ),
            r matches Err(e) ==> e.position == final(self).position(),
        decreases old(self).tokens().len() - old(self).position(), 0nat,
    {
        proof {
            use_type_invariant(&*self);
        }
        if self.at_end() {
            return Err(self.fail(Expected::Operand));
        }
        match self.tokens[self.pos].token_type {
            TokenType::LParen => {
                self.next();
                let inner = self.make_expression()?;
                if self.at_end() {
                    return Err(self.fail(Expected::RParen));
                }
                match self.tokens[self.pos].token_type {
                    TokenType::RParen => {
                        self.next();
                        Ok(inner)
                    },
                    _ => Err(self.fail(Expected::RParen)),
                }
            },
            TokenType::Int(value) => {
                // The leaf gets a token of its own, equal to the one in the stream.
                let tok = Token {
                    token_type: TokenType::Int(value),
                    offset: self.tokens[self.pos].offset,
                };
                self.next();
                Ok(ExpressionNode::Leaf { tok })
            },
            _ => Err(self.fail(Expected::Operand)),
        }
    }

    /// The error for a stream that lacks `expected` under the cursor.
    fn fail(&self, expected: Expected) -> (e: ParseError)
        ensures
            e == failure(self.tokens(), self.position() as nat, expected),
            e.position == self.position(),
    {
        proof {
            use_type_invariant(self);
        }
        let offset = if self.pos < self.tokens.len() {
            Some(self.tokens[self.pos].offset)
        } else {
            None
        };
        ParseError { expected, position: self.pos, offset }
    }

    /// Moves the cursor to the next token.
    fn next(&mut self)
        requires
            old(self).position() < old(self).tokens().len(),
        ensures
            final(self).tokens() == old(self).tokens(),
            final(self).position() == old(self).position() + 1,
    {
        assert(self.pos < self.tokens.len());
        self.pos = self.pos + 1;
    }
}

} // verus!
