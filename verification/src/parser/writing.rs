//! Writing a tree as tokens with no more parentheses than it needs, and the
//! proof that the grammar reads every such stream back as the tree it was
//! written from.

use vstd::prelude::*;
use crate::parser::ast::ExpressionNode;
use crate::parser::grammar::{
    lemma_parse_operand_bounds, parse_expression, parse_level, parse_operand, parse_value, Level,
    Reading,
};
use crate::parser::tokenizer::{Token, TokenType};

verus! {

/// How loosely the top of a tree binds: the height of the level of its
/// operator, and 0 for a leaf.
pub open spec fn looseness(tree: ExpressionNode) -> nat {
    match tree {
        ExpressionNode::Leaf { .. } => 0,
        ExpressionNode::Binary { expression_type, .. } => match Level::of(expression_type) {
            Some(level) => level.height(),
            None => 0,
        },
    }
}

/// The operator of a level as a token. A tree does not hold the tokens of its
/// operators and parentheses: they are written with offset 0.
pub open spec fn operator_token(level: Level) -> Token {
    Token { token_type: level.operator(), offset: 0 }
}

/// A tree as tokens: a leaf is its token; a binary node is its left operand,
/// its operator and its right operand. The left operand must bind tighter
/// than the operator, the right operand at least as tight: an operand that
/// does not is put between parentheses.
pub open spec fn written(tree: ExpressionNode) -> Seq<Token>
    decreases tree, 0nat,
{
    match tree {
        ExpressionNode::Leaf { tok } => seq![tok],
        ExpressionNode::Binary { expression_type, left, right } => {
            match Level::of(expression_type) {
                Some(level) => written_within(*left, (level.height() - 1) as nat).push(
                    operator_token(level),
                ) + written_within(*right, level.height()),
                None => Seq::empty(),
            }
        },
    }
}

/// A tree as tokens in a place that takes trees up to the given looseness:
/// between parentheses where the tree is looser than that.
pub open spec fn written_within(tree: ExpressionNode, limit: nat) -> Seq<Token>
    decreases tree, 1nat,
{
    if looseness(tree) <= limit {
        written(tree)
    } else {
        seq![Token { token_type: TokenType::LParen, offset: 0 }] + written(tree) + seq![
            Token { token_type: TokenType::RParen, offset: 0 },
        ]
    }
}

/// What the grammar reads at index `pos` in a place that takes trees up to
/// the given looseness: an expression of the level of that height, or a
/// value where no level has that height, as with 0.
pub open spec fn parse_within(tokens: Seq<Token>, pos: nat, limit: nat) -> Reading {
    match Level::at(limit) {
        Some(level) => parse_level(tokens, pos, level),
        None => parse_value(tokens, pos),
    }
}

/// Whether `part` stands in `tokens` from index `pos` on.
pub open spec fn stands_at(tokens: Seq<Token>, pos: nat, part: Seq<Token>) -> bool {
    &&& pos + part.len() <= tokens.len()
    &&& forall|i: int| 0 <= i < part.len() ==> tokens[pos + i] == #[trigger] part[i]
}

/// Whether the token at index `end`, if there is one, is the operator of no
/// level of a height above `from` and up to `to`.
pub open spec fn unclaimed(tokens: Seq<Token>, end: nat, from: nat, to: nat) -> bool {
    end < tokens.len() ==> forall|level: Level|
        from < #[trigger] level.height() <= to ==> !level.owns(tokens[end as int].token_type)
}

/// What was read in a tighter place is read in every looser place as well,
/// as long as no level in between owns the token behind it.
pub proof fn lemma_read_in_looser_place(tokens: Seq<Token>, pos: nat, from: nat, to: nat)
    requires
        from <= to <= Level::Addition.height(),
        pos <= tokens.len(),
        parse_within(tokens, pos, from) matches Ok((_, end)) && unclaimed(tokens, end, from, to),
    ensures
        parse_within(tokens, pos, to) == parse_within(tokens, pos, from),
    decreases to,
{
    if from < to {
        let level = Level::at(to).unwrap();
        let below = (to - 1) as nat;
        lemma_read_in_looser_place(tokens, pos, from, below);
        // The level of height `to` takes its operand from the place below and
        // finds no operator of its own behind it.
        assert(level.height() == to);
        assert(parse_operand(tokens, pos, level) == parse_within(tokens, pos, below));
    }
}

/// A well-formed tree is read back from its tokens, wherever they stand in a
/// stream, in every place that takes trees of its looseness, as long as no
/// level up to that of the place owns the token behind them.
pub proof fn lemma_read_back(tokens: Seq<Token>, pos: nat, tree: ExpressionNode, limit: nat)
    requires
        tree.wf(),
        looseness(tree) <= limit <= Level::Addition.height(),
        stands_at(tokens, pos, written(tree)),
        unclaimed(tokens, pos + written(tree).len(), 0, limit),
    ensures
        parse_within(tokens, pos, limit) == Reading::Ok((tree, pos + written(tree).len())),
    decreases tree, 0nat,
{
    let text = written(tree);
    let end = pos + text.len();
    match tree {
        ExpressionNode::Leaf { tok } => {
            assert(tokens[pos + 0int] == text[0]);
            lemma_read_in_looser_place(tokens, pos, 0, limit);
        },
        ExpressionNode::Binary { expression_type, left, right } => {
            let level = Level::of(expression_type).unwrap();
            let height = level.height();
            let below = (height - 1) as nat;
            let first = written_within(*left, below);
            let second = written_within(*right, height);
            let mid = pos + first.len();
            // The stream holds the left operand, the operator and the right
            // operand in turn.
            assert(text == first.push(operator_token(level)) + second);
            assert(stands_at(tokens, pos, first)) by {
                assert forall|i: int| 0 <= i < first.len() implies tokens[pos + i]
                    == #[trigger] first[i] by {
                    assert(text[i] == first[i]);
                }
            }
            assert(tokens[mid as int] == operator_token(level)) by {
                assert(text[first.len() as int] == operator_token(level));
            }
            assert(stands_at(tokens, mid + 1, second)) by {
                assert forall|i: int| 0 <= i < second.len() implies tokens[mid + 1 + i]
                    == #[trigger] second[i] by {
                    assert(text[first.len() + 1 + i] == second[i]);
                }
            }
            // Both operands are read back, so the level of the operator reads
            // the tree, and so does every looser level up to the limit.
            lemma_read_back_within(tokens, pos, *left, below);
            lemma_read_back_within(tokens, mid + 1, *right, height);
            lemma_parse_operand_bounds(tokens, pos, level);
            lemma_read_in_looser_place(tokens, pos, height, limit);
        },
    }
}

/// A well-formed tree is read back from its tokens, parentheses included, in
/// every place, as long as no level up to that of the place owns the token
/// behind them.
pub proof fn lemma_read_back_within(tokens: Seq<Token>, pos: nat, tree: ExpressionNode, limit: nat)
    requires
        tree.wf(),
        limit <= Level::Addition.height(),
        stands_at(tokens, pos, written_within(tree, limit)),
        unclaimed(tokens, pos + written_within(tree, limit).len(), 0, limit),
    ensures
        parse_within(tokens, pos, limit) == Reading::Ok(
            (tree, pos + written_within(tree, limit).len()),
        ),
    decreases tree, 1nat,
{
    if looseness(tree) <= limit {
        lemma_read_back(tokens, pos, tree, limit);
    } else {
        let text = written_within(tree, limit);
        let inner = written(tree);
        // The stream holds the tree between two parentheses.
        assert(tokens[pos + 0int] == text[0]);
        assert(tokens[pos + (1 + inner.len() as int)] == text[1 + inner.len() as int]);
        assert(stands_at(tokens, pos + 1, inner)) by {
            assert forall|i: int| 0 <= i < inner.len() implies tokens[pos + 1 + i]
                == #[trigger] inner[i] by {
                assert(text[1 + i] == inner[i]);
            }
        }
        // What stands between them is read back as an expression, which
        // makes the whole a value, and a value is read in every place.
        lemma_read_back(tokens, pos + 1, tree, Level::Addition.height());
        lemma_read_in_looser_place(tokens, pos, 0, limit);
    }
}

/// Reading is the inverse of writing: the token stream written from a
/// well-formed tree is read back, whole, as that tree. So every well-formed
/// tree can be denoted, operators of one level group to the right, a tighter
/// level groups before a looser one, and parentheses override both.
pub proof fn theorem_written_tree_is_read_back(tree: ExpressionNode)
    requires
        tree.wf(),
    ensures
        parse_expression(written(tree), 0) == Reading::Ok((tree, written(tree).len())),
{
    lemma_read_back(written(tree), 0, tree, Level::Addition.height());
}

} // verus!
