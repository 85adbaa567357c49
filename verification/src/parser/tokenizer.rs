//! Splits source text into classified tokens, one per character, and drops
//! the whitespace. Also the textual form of tokens.

use vstd::prelude::*;
use crate::parser::error::LexError;

verus! {

/// What a token is.
///
/// `Identifier` and `Keyword` are reserved: the tokenizer never produces
/// them. `Whitespace` is produced for single characters and never reaches a
/// token stream.
#[derive(Clone, Debug, PartialEq, Eq)]
pub enum TokenType {
    Add,
    Sub,
    Mul,
    Div,
    Exp,
    LParen,
    RParen,
    /// A literal. The tokenizer produces the values 0 to 9 only.
    Int(u32),
    /// An ASCII letter.
    Char(char),
    Identifier(String),
    Keyword(String),
    Whitespace,
}

/// A classified character of the source, with the place it came from.
#[derive(Clone, Debug, PartialEq, Eq)]
pub struct Token {
    pub token_type: TokenType,
    /// 0-based character offset of the token in the source.
    pub offset: usize,
}

/// Space and newline separate tokens and are otherwise ignored.
pub open spec fn is_whitespace(c: char) -> bool {
    c == ' ' || c == '\n'
}

/// The ten digit characters.
pub open spec fn is_digit(c: char) -> bool {
    '0' <= c <= '9'
}

/// The number that a digit character writes.
pub open spec fn digit_value(c: char) -> u32 {
    (c as u32 - '0' as u32) as u32
}

/// The kind of token a single character stands for, or `None` where the
/// character belongs to no token. Every character is classified by itself:
/// a digit is always a literal of its own.
pub open spec fn classify(c: char) -> Option<TokenType> {
    if c == '+' {
        Some(TokenType::Add)
    } else if c == '-' {
        Some(TokenType::Sub)
    } else if c == '*' {
        Some(TokenType::Mul)
    } else if c == '/' {
        Some(TokenType::Div)
    } else if c == '^' {
        Some(TokenType::Exp)
    } else if c == '(' {
        Some(TokenType::LParen)
    } else if c == ')' {
        Some(TokenType::RParen)
    } else if is_digit(c) {
        Some(TokenType::Int(digit_value(c)))
    } else if is_whitespace(c) {
        Some(TokenType::Whitespace)
    } else if 'a' <= c <= 'z' || 'A' <= c <= 'Z' {
        Some(TokenType::Char(c))
    } else {
        None
    }
}

/// Classifies one character found at `offset`.
pub fn tokenize_char(c: char, offset: usize) -> (r: Result<Token, LexError>)
    ensures
        match r {
            Ok(t) => classify(c) == Some(t.token_type) && t.offset == offset,
            Err(e) => classify(c) is None && e.character == c && e.offset == offset,
        },
{
    let token_type = if c == '+' {
        TokenType::Add
    } else if c == '-' {
        TokenType::Sub
    } else if c == '*' {
        TokenType::Mul
    } else if c == '/' {
        TokenType::Div
    } else if c == '^' {
        TokenType::Exp
    } else if c == '(' {
        TokenType::LParen
    } else if c == ')' {
        TokenType::RParen
    } else if '0' <= c && c <= '9' {
        TokenType::Int(c as u32 - '0' as u32)
    } else if c == ' ' || c == '\n' {
        TokenType::Whitespace
    } else if ('a' <= c && c <= 'z') || ('A' <= c && c <= 'Z') {
        TokenType::Char(c)
    } else {
        return Err(LexError { character: c, offset });
    };
    Ok(Token { token_type, offset })
}

/// The token stream of a source: one token for every character that is not
/// whitespace, in source order, each with the kind and the offset of its
/// character.
pub open spec fn lex(source: Seq<char>) -> Seq<Token>
    decreases source.len(),
{
    if source.len() == 0 {
        Seq::empty()
    } else {
        let before = lex(source.drop_last());
        match classify(source.last()) {
            Some(token_type) if token_type != TokenType::Whitespace => before.push(
                Token { token_type, offset: (source.len() - 1) as usize },
            ),
            _ => before,
        }
    }
}

/// Whether every character of the source belongs to a token or is whitespace.
pub open spec fn lexable(source: Seq<char>) -> bool {
    forall|i: int| 0 <= i < source.len() ==> (#[trigger] classify(source[i])) is Some
}

/// Turns source text into its token stream.
///
/// Fails on the first character that belongs to no token, naming that
/// character and its offset. A source without tokens yields an empty stream.
pub fn tokenize_string(s: String) -> (r: Result<Vec<Token>, LexError>)
    ensures
        match r {
            Ok(tokens) => {
                &&& lexable(s@)
                &&& tokens@ == lex(s@)
                &&& forall|i: int|
                    0 <= i < tokens.len() ==> (#[trigger] tokens[i]).token_type.in_stream()
            },
            Err(e) => {
                &&& e.offset < s@.len()
                &&& e.character == s@[e.offset as int]
                &&& classify(e.character) is None
                &&& lexable(s@.take(e.offset as int))
            },
        },
{
    let text = s.as_str();
    // The number of characters bounds every offset that is counted below.
    let len = text.unicode_len();
    let mut tokens: Vec<Token> = Vec::new();
    let mut offset: usize = 0;
    for c in it: text.chars()
        invariant
            len == s@.len(),
            it.seq() == s@,
            offset == it.index(),
            offset <= len,
            lexable(s@.take(offset as int)),
            tokens@ == lex(s@.take(offset as int)),
            forall|i: int| 0 <= i < tokens.len() ==> (#[trigger] tokens[i]).token_type.in_stream(),
    {
        let token = match tokenize_char(c, offset) {
            Ok(token) => token,
            Err(e) => {
                return Err(e);
            },
        };
        proof {
            assert(s@.take(offset + 1).drop_last() == s@.take(offset as int));
        }
        match token.token_type {
            TokenType::Whitespace => {},
            _ => {
                tokens.push(token);
            },
        }
        offset = offset + 1;
    }
    proof {
        assert(s@.take(offset as int) == s@);
    }
    Ok(tokens)
}

/// `String::push` of the standard library: appends one character to the end
/// of the string and leaves the rest as it was.
pub assume_specification[ String::push ](s: &mut String, ch: char)
    ensures
        final(s)@ == old(s)@.push(ch),
;

/// The character that writes the digit `d`, for `d` below ten.
pub open spec fn digit_char(d: nat) -> char {
    ('0' as nat + d) as char
}

/// The decimal notation of `n`, without leading zeros.
pub open spec fn decimal(n: nat) -> Seq<char>
    decreases n,
{
    if n < 10 {
        seq![digit_char(n)]
    } else {
        decimal(n / 10).push(digit_char(n % 10))
    }
}

/// Appends the decimal notation of `n` to `out`.
fn push_decimal(out: &mut String, n: u32)
    ensures
        final(out)@ == old(out)@ + decimal(n as nat),
    decreases n,
{
    if n >= 10 {
        push_decimal(out, n / 10);
    }
    let digit: u8 = (n % 10) as u8;
    out.push((48u8 + digit) as char);
}

impl TokenType {
    /// The kinds that occur in a token stream: all but whitespace, which is
    /// dropped, and the two reserved kinds.
    pub open spec fn in_stream(self) -> bool {
        !(self is Whitespace || self is Identifier || self is Keyword)
    }

    /// The textual form of a token kind. A literal is written as its number;
    /// the other kinds are written as a lower-case name, followed in
    /// parentheses by what they carry.
    pub open spec fn rendered(self) -> Seq<char> {
        match self {
            TokenType::Add => "add"@,
            TokenType::Sub => "sub"@,
            TokenType::Mul => "mul"@,
            TokenType::Div => "div"@,
            TokenType::Exp => "exp"@,
            TokenType::LParen => "l_paren"@,
            TokenType::RParen => "r_paren"@,
            TokenType::Int(x) => decimal(x as nat),
            TokenType::Char(c) => "char("@.push(c) + ")"@,
            TokenType::Identifier(s) => "id("@ + s@ + ")"@,
            TokenType::Keyword(s) => "keyword("@ + s@ + ")"@,
            TokenType::Whitespace => "whitespace"@,
        }
    }

    /// Appends the textual form of the kind to `out`.
    pub fn render_into(&self, out: &mut String)
        ensures
            final(out)@ == old(out)@ + self.rendered(),
    {
        match self {
            TokenType::Add => out.append("add"),
            TokenType::Sub => out.append("sub"),
            TokenType::Mul => out.append("mul"),
            TokenType::Div => out.append("div"),
            TokenType::Exp => out.append("exp"),
            TokenType::LParen => out.append("l_paren"),
            TokenType::RParen => out.append("r_paren"),
            TokenType::Int(x) => push_decimal(out, *x),
            TokenType::Char(c) => {
                out.append("char(");
                out.push(*c);
                out.append(")");
            },
            TokenType::Identifier(s) => {
                out.append("id(");
                out.append(s.as_str());
                out.append(")");
            },
            TokenType::Keyword(s) => {
                out.append("keyword(");
                out.append(s.as_str());
                out.append(")");
            },
            TokenType::Whitespace => out.append("whitespace"),
        }
    }

    /// The textual form of the kind.
    pub fn render(&self) -> (text: String)
        ensures
            text@ == self.rendered(),
    {
        let mut text = String::new();
        self.render_into(&mut text);
        text
    }
}

impl Token {
    /// The textual form of a token: that of its kind.
    pub open spec fn rendered(self) -> Seq<char> {
        self.token_type.rendered()
    }

    /// The textual form of the token.
    pub fn render(&self) -> (text: String)
        ensures
            text@ == self.rendered(),
    {
        self.token_type.render()
    }
}

} // verus!
