//! Laws of reading: what a tree keeps of the tokens it was read from, and
//! where reading fails.

use vstd::prelude::*;
use crate::parser::ast::ExpressionNode;
use crate::parser::error::Expected;
use crate::parser::grammar::{
    failure, lemma_parse_bounds, lemma_parse_operand_bounds, parse_level, parse_operand,
    parse_value, Level, Reading,
};
use crate::parser::laws::token_types;
use crate::parser::tokenizer::{Token, TokenType};

verus! {

/// The kinds of a token stream without its parentheses.
pub open spec fn without_parentheses(kinds: Seq<TokenType>) -> Seq<TokenType> {
    kinds.filter(|kind: TokenType| !(kind is LParen || kind is RParen))
}

/// The kinds of the tokens that a tree stands for, from left to right: its
/// literals, and between the operands of every node the operator of the
/// node.
pub open spec fn kinds_in_order(tree: ExpressionNode) -> Seq<TokenType>
    decreases tree,
{
    match tree {
        ExpressionNode::Leaf { tok } => seq![tok.token_type],
        ExpressionNode::Binary { expression_type, left, right } => {
            match Level::of(expression_type) {
                Some(level) => kinds_in_order(*left).push(level.operator()) + kinds_in_order(
                    *right,
                ),
                None => Seq::empty(),
            }
        },
    }
}

/// The kinds of the tokens from index `from` up to index `to`, without the
/// parentheses among them.
pub open spec fn kinds_read(tokens: Seq<Token>, from: nat, to: nat) -> Seq<TokenType> {
    without_parentheses(token_types(tokens.subrange(from as int, to as int)))
}

/// The kinds read over two adjoining ranges are those of the first range
/// followed by those of the second.
proof fn lemma_kinds_read_joined(tokens: Seq<Token>, from: nat, mid: nat, to: nat)
    requires
        from <= mid <= to <= tokens.len(),
    ensures
        kinds_read(tokens, from, to) == kinds_read(tokens, from, mid) + kinds_read(tokens, mid, to),
{
    let first = token_types(tokens.subrange(from as int, mid as int));
    let second = token_types(tokens.subrange(mid as int, to as int));
    assert(token_types(tokens.subrange(from as int, to as int)) == first + second);
    Seq::filter_distributes_over_add(
        first,
        second,
        |kind: TokenType| !(kind is LParen || kind is RParen),
    );
}

/// What is read over a single token: nothing for a parenthesis, the kind of
/// the token for any other.
proof fn lemma_kinds_read_one(tokens: Seq<Token>, at: nat)
    requires
        at < tokens.len(),
    ensures
        kinds_read(tokens, at, at + 1) == if tokens[at as int].token_type is LParen
            || tokens[at as int].token_type is RParen {
            Seq::<TokenType>::empty()
        } else {
            seq![tokens[at as int].token_type]
        },
{
    reveal_with_fuel(Seq::filter, 2);
}

/// A value stands for the tokens it was read from: without their
/// parentheses, they are the literals and operators of the tree, in order.
pub proof fn lemma_value_keeps_order(tokens: Seq<Token>, pos: nat)
    requires
        pos <= tokens.len(),
    ensures
        parse_value(tokens, pos) matches Ok((tree, end)) ==> kinds_read(tokens, pos, end)
            == kinds_in_order(tree),
    decreases tokens.len() - pos, 0nat, 0nat,
{
    if let Ok((tree, end)) = parse_value(tokens, pos) {
        lemma_kinds_read_one(tokens, pos);
        if tokens[pos as int].token_type is LParen {
            lemma_parse_bounds(tokens, pos + 1, Level::Addition);
            lemma_tree_keeps_order(tokens, pos + 1, Level::Addition);
            let close = (end - 1) as nat;
            lemma_kinds_read_one(tokens, close);
            lemma_kinds_read_joined(tokens, pos, pos + 1, end);
            lemma_kinds_read_joined(tokens, pos + 1, close, end);
        }
    }
}

/// A left operand stands for the tokens it was read from.
pub proof fn lemma_operand_keeps_order(tokens: Seq<Token>, pos: nat, level: Level)
    requires
        pos <= tokens.len(),
    ensures
        parse_operand(tokens, pos, level) matches Ok((tree, end)) ==> kinds_read(tokens, pos, end)
            == kinds_in_order(tree),
    decreases tokens.len() - pos, level.height(), 0nat,
{
    match level.tighter() {
        Some(below) => lemma_tree_keeps_order(tokens, pos, below),
        None => lemma_value_keeps_order(tokens, pos),
    }
}

/// A tree stands for the tokens it was read from: without their parentheses,
/// they are the literals and operators of the tree, in order. No token that
/// was read is lost, none is added, and none changes its place.
pub proof fn lemma_tree_keeps_order(tokens: Seq<Token>, pos: nat, level: Level)
    requires
        pos <= tokens.len(),
    ensures
        parse_level(tokens, pos, level) matches Ok((tree, end)) ==> kinds_read(tokens, pos, end)
            == kinds_in_order(tree),
    decreases tokens.len() - pos, level.height(), 1nat,
{
    lemma_operand_keeps_order(tokens, pos, level);
    lemma_parse_operand_bounds(tokens, pos, level);
    if let Ok((left, mid)) = parse_operand(tokens, pos, level) {
        if mid < tokens.len() && level.owns(tokens[mid as int].token_type) {
            lemma_tree_keeps_order(tokens, mid + 1, level);
            lemma_parse_bounds(tokens, mid + 1, level);
            if let Ok((right, end)) = parse_level(tokens, mid + 1, level) {
                lemma_kinds_read_one(tokens, mid);
                lemma_kinds_read_joined(tokens, pos, mid, end);
                lemma_kinds_read_joined(tokens, mid, mid + 1, end);
            }
        }
    }
}

/// Whether what was read, if anything, ends on a literal or on a closing
/// parenthesis.
pub open spec fn ends_on_value(tokens: Seq<Token>, outcome: Reading) -> bool {
    outcome matches Ok((_, end)) ==> {
        let last = tokens[end - 1].token_type;
        last is Int || last is RParen
    }
}

/// A left operand ends on a literal or on a closing parenthesis.
pub proof fn lemma_operand_ends_on_value(tokens: Seq<Token>, pos: nat, level: Level)
    requires
        pos <= tokens.len(),
    ensures
        ends_on_value(tokens, parse_operand(tokens, pos, level)),
    decreases tokens.len() - pos, level.height(), 0nat,
{
    if let Some(below) = level.tighter() {
        lemma_tree_ends_on_value(tokens, pos, below);
    }
}

/// An expression ends on a literal or on a closing parenthesis, never on an
/// operator. So a stream whose last token is an operator is not read whole:
/// reading it fails or leaves tokens unread.
pub proof fn lemma_tree_ends_on_value(tokens: Seq<Token>, pos: nat, level: Level)
    requires
        pos <= tokens.len(),
    ensures
        ends_on_value(tokens, parse_level(tokens, pos, level)),
    decreases tokens.len() - pos, level.height(), 1nat,
{
    lemma_operand_ends_on_value(tokens, pos, level);
    lemma_parse_operand_bounds(tokens, pos, level);
    if let Ok((_, mid)) = parse_operand(tokens, pos, level) {
        if mid < tokens.len() && level.owns(tokens[mid as int].token_type) {
            lemma_tree_ends_on_value(tokens, mid + 1, level);
        }
    }
}

/// An opening parenthesis that no closing parenthesis follows is an error,
/// whatever stands between it and the end of the stream.
pub proof fn lemma_unclosed_parenthesis(tokens: Seq<Token>, pos: nat, level: Level)
    requires
        pos < tokens.len(),
        tokens[pos as int].token_type is LParen,
        forall|i: int| pos < i < tokens.len() ==> !((#[trigger] tokens[i]).token_type is RParen),
    ensures
        parse_value(tokens, pos) is Err,
        parse_level(tokens, pos, level) is Err,
    decreases level.height(),
{
    lemma_parse_bounds(tokens, pos + 1, Level::Addition);
    if let Some(below) = level.tighter() {
        lemma_unclosed_parenthesis(tokens, pos, below);
    }
    assert(parse_operand(tokens, pos, level) is Err);
}

/// The end of the stream is no expression: reading there fails for want of
/// an operand.
pub proof fn lemma_end_is_no_expression(tokens: Seq<Token>, level: Level)
    ensures
        parse_value(tokens, tokens.len()) == Reading::Err(
            failure(tokens, tokens.len(), Expected::Operand),
        ),
        parse_level(tokens, tokens.len(), level) == parse_value(tokens, tokens.len()),
    decreases level.height(),
{
    if let Some(below) = level.tighter() {
        lemma_end_is_no_expression(tokens, below);
    }
    assert(parse_operand(tokens, tokens.len(), level) == parse_value(tokens, tokens.len()));
}

/// An operator that ends the stream lacks its right operand: the level that
/// owns it fails there for want of an operand, and so does every looser
/// level, the whole expression included.
pub proof fn lemma_operator_at_end(tokens: Seq<Token>, pos: nat, level: Level, looser: Level)
    requires
        pos <= tokens.len(),
        parse_operand(tokens, pos, level) matches Ok((_, mid)) && mid + 1 == tokens.len()
            && level.owns(tokens[mid as int].token_type),
        level.height() <= looser.height(),
    ensures
        parse_level(tokens, pos, looser) == Reading::Err(
            failure(tokens, tokens.len(), Expected::Operand),
        ),
    decreases looser.height(),
{
    if level == looser {
        lemma_parse_operand_bounds(tokens, pos, level);
        lemma_end_is_no_expression(tokens, level);
    } else {
        lemma_operator_at_end(tokens, pos, level, looser.tighter().unwrap());
        assert(parse_operand(tokens, pos, looser) is Err);
    }
}

} // verus!
