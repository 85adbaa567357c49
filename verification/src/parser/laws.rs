//! Laws of the tokenizer and the grammar.

use vstd::prelude::*;
use crate::parser::ast::ExpressionNode;
use crate::parser::grammar::{parse_expression, Level, Reading};
use crate::parser::tokenizer::{
    classify, decimal, digit_value, is_digit, is_whitespace, lex, lexable, Token, TokenType,
};
use crate::parser::writing::lemma_read_in_looser_place;

verus! {

/// The kinds of the tokens of a stream, in order.
pub open spec fn token_types(tokens: Seq<Token>) -> Seq<TokenType> {
    tokens.map_values(|t: Token| t.token_type)
}

/// A source with its whitespace taken out.
pub open spec fn without_whitespace(source: Seq<char>) -> Seq<char> {
    source.filter(|c: char| !is_whitespace(c))
}

/// Taking the whitespace out of a source changes neither whether it can be
/// tokenized nor the kinds of its tokens.
pub proof fn lemma_whitespace_removed(source: Seq<char>)
    ensures
        lexable(without_whitespace(source)) == lexable(source),
        token_types(lex(without_whitespace(source))) == token_types(lex(source)),
    decreases source.len(),
{
    reveal(Seq::filter);
    if source.len() > 0 {
        let shorter = source.drop_last();
        let last = source.last();
        let stripped = without_whitespace(source);
        lemma_whitespace_removed(shorter);
        assert(shorter.push(last) == source);
        lemma_lexable_push(shorter, last);
        if !is_whitespace(last) {
            let stripped_shorter = without_whitespace(shorter);
            assert(stripped.drop_last() == stripped_shorter);
            lemma_lexable_push(stripped_shorter, last);
            if let Some(token_type) = classify(last) {
                let here = Token { token_type, offset: (source.len() - 1) as usize };
                let there = Token { token_type, offset: (stripped.len() - 1) as usize };
                assert(token_types(lex(shorter).push(here)) == token_types(lex(shorter)).push(
                    token_type,
                ));
                assert(token_types(lex(stripped_shorter).push(there)) == token_types(
                    lex(stripped_shorter),
                ).push(token_type));
            }
        }
    }
}

/// A source with one more character can be tokenized where the source and
/// the character can.
proof fn lemma_lexable_push(source: Seq<char>, c: char)
    ensures
        lexable(source.push(c)) == (lexable(source) && classify(c) is Some),
{
    let longer = source.push(c);
    if lexable(longer) {
        assert(classify(longer[source.len() as int]) is Some);
        assert forall|i: int| 0 <= i < source.len() implies (#[trigger] classify(
            source[i],
        )) is Some by {
            assert(longer[i] == source[i]);
        }
    }
}

/// Whitespace is insignificant: two sources that differ only in their
/// whitespace can both be tokenized or neither can, and their token streams
/// have the same kinds in the same order.
pub proof fn lemma_whitespace_insignificant(a: Seq<char>, b: Seq<char>)
    requires
        without_whitespace(a) == without_whitespace(b),
    ensures
        lexable(a) == lexable(b),
        token_types(lex(a)) == token_types(lex(b)),
{
    lemma_whitespace_removed(a);
    lemma_whitespace_removed(b);
}

/// The tokens of a source are its characters that are not whitespace: every
/// token stands at the offset of a character of its kind, the offsets grow
/// along the stream, and every character that is not whitespace has its
/// token.
pub proof fn lemma_lex_tokens(source: Seq<char>)
    requires
        lexable(source),
        source.len() <= usize::MAX,
    ensures
        lex(source).len() <= source.len(),
        forall|j: int|
            0 <= j < lex(source).len() ==> {
                let t = #[trigger] lex(source)[j];
                &&& t.offset < source.len()
                &&& classify(source[t.offset as int]) == Some(t.token_type)
                &&& t.token_type.in_stream()
            },
        forall|j: int, k: int|
            0 <= j < k < lex(source).len() ==>
                (#[trigger] lex(source)[j]).offset < (#[trigger] lex(source)[k]).offset,
        forall|i: int|
            0 <= i < source.len() && !is_whitespace(#[trigger] source[i]) ==> exists|j: int|
                0 <= j < lex(source).len() && (#[trigger] lex(source)[j]).offset == i,
    decreases source.len(),
{
    if source.len() > 0 {
        let shorter = source.drop_last();
        let last = source.last();
        assert(shorter.push(last) == source);
        lemma_lexable_push(shorter, last);
        lemma_lex_tokens(shorter);
        let tokens = lex(source);
        let before = lex(shorter);
        assert forall|i: int|
            0 <= i < source.len() && !is_whitespace(#[trigger] source[i]) implies exists|j: int|
            0 <= j < tokens.len() && (#[trigger] tokens[j]).offset == i by {
            if i < shorter.len() {
                let j = choose|j: int| 0 <= j < before.len() && (#[trigger] before[j]).offset == i;
                assert(tokens[j] == before[j]);
            } else {
                assert(tokens[tokens.len() - 1].offset == i);
            }
        }
    }
}

/// Digits are never joined: a source of digits alone has one literal token
/// for each of them, holding the number that the digit writes.
pub proof fn lemma_digits_stay_apart(source: Seq<char>)
    requires
        forall|i: int| 0 <= i < source.len() ==> is_digit(#[trigger] source[i]),
    ensures
        lexable(source),
        lex(source).len() == source.len(),
        forall|i: int|
            0 <= i < source.len() ==> #[trigger] lex(source)[i] == (Token {
                token_type: TokenType::Int(digit_value(source[i])),
                offset: i as usize,
            }),
    decreases source.len(),
{
    if source.len() > 0 {
        let shorter = source.drop_last();
        lemma_digits_stay_apart(shorter);
    }
}

/// A source of digits alone is read as its first digit: the expression is a
/// leaf that holds the first token, and the digits behind it are left unread.
pub proof fn lemma_digits_parse_as_first(source: Seq<char>)
    requires
        source.len() > 0,
        forall|i: int| 0 <= i < source.len() ==> is_digit(#[trigger] source[i]),
    ensures
        parse_expression(lex(source), 0) == Reading::Ok(
            (ExpressionNode::Leaf { tok: lex(source)[0] }, 1),
        ),
        lex(source)[0].token_type == TokenType::Int(digit_value(source[0])),
{
    lemma_digits_stay_apart(source);
    lemma_read_in_looser_place(lex(source), 0, 0, Level::Addition.height());
}

/// A single digit is read back as itself: the source that writes a number
/// below ten has one token, the expression is the leaf that holds it, and
/// the leaf renders as the source.
pub proof fn lemma_single_digit(d: u32)
    requires
        d <= 9,
    ensures
        ({
            let source = decimal(d as nat);
            let token = Token { token_type: TokenType::Int(d), offset: 0 };
            let leaf = ExpressionNode::Leaf { tok: token };
            &&& lexable(source)
            &&& lex(source) == seq![token]
            &&& parse_expression(lex(source), 0) == Reading::Ok((leaf, 1))
            &&& leaf.rendered() == source
        }),
{
    let source = decimal(d as nat);
    lemma_digits_stay_apart(source);
    lemma_digits_parse_as_first(source);
}

/// Rendering is repeatable: the text of a tree depends on the tree alone, so
/// two renderings of one tree are the same text.
pub proof fn lemma_rendering_repeats(tree: ExpressionNode, first: Seq<char>, second: Seq<char>)
    requires
        first == tree.rendered(),
        second == tree.rendered(),
    ensures
        first == second,
{
}

} // verus!
