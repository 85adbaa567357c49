use arith_parser::parser::error::LexError;
use arith_parser::parser::tokenizer::{tokenize_char, tokenize_string, Token, TokenType};

fn kinds(source: &str) -> Vec<TokenType> {
    tokenize_string(String::from(source))
        .expect("the source has only known characters")
        .into_iter()
        .map(|t| t.token_type)
        .collect()
}

fn tok(token_type: TokenType, offset: usize) -> Token {
    Token { token_type, offset }
}

#[test]
fn every_symbol_has_its_kind() {
    assert_eq!(
        kinds("+-*/^()"),
        vec![
            TokenType::Add,
            TokenType::Sub,
            TokenType::Mul,
            TokenType::Div,
            TokenType::Exp,
            TokenType::LParen,
            TokenType::RParen,
        ]
    );
}

#[test]
fn every_digit_is_a_literal_of_its_value() {
    let digits = ['0', '1', '2', '3', '4', '5', '6', '7', '8', '9'];
    for (value, c) in digits.iter().enumerate() {
        assert_eq!(
            tokenize_char(*c, 7),
            Ok(tok(TokenType::Int(value as u32), 7))
        );
    }
}

#[test]
fn letters_become_char_tokens() {
    assert_eq!(
        kinds("azAZ"),
        vec![
            TokenType::Char('a'),
            TokenType::Char('z'),
            TokenType::Char('A'),
            TokenType::Char('Z'),
        ]
    );
}

#[test]
fn single_characters_classify_on_their_own() {
    assert_eq!(tokenize_char('+', 0), Ok(tok(TokenType::Add, 0)));
    assert_eq!(tokenize_char('-', 1), Ok(tok(TokenType::Sub, 1)));
    assert_eq!(tokenize_char('*', 2), Ok(tok(TokenType::Mul, 2)));
    assert_eq!(tokenize_char('/', 3), Ok(tok(TokenType::Div, 3)));
    assert_eq!(tokenize_char('^', 4), Ok(tok(TokenType::Exp, 4)));
    assert_eq!(tokenize_char('(', 5), Ok(tok(TokenType::LParen, 5)));
    assert_eq!(tokenize_char(')', 6), Ok(tok(TokenType::RParen, 6)));
    assert_eq!(tokenize_char(' ', 7), Ok(tok(TokenType::Whitespace, 7)));
    assert_eq!(tokenize_char('\n', 8), Ok(tok(TokenType::Whitespace, 8)));
    assert_eq!(tokenize_char('q', 9), Ok(tok(TokenType::Char('q'), 9)));
}

#[test]
fn characters_next_to_the_known_ranges_are_rejected() {
    let strangers = [
        ':', '@', '[', '`', '{', '\'', ',', '.', ']', '_', '\t', '\r', '#', '!', '=', '\0',
        '\u{7f}', '\u{b2}', '\u{660}',
    ];
    for c in strangers {
        assert_eq!(tokenize_char(c, 3), Err(LexError { character: c, offset: 3 }));
    }
}

#[test]
fn tokens_keep_source_order_and_offsets() {
    assert_eq!(
        tokenize_string(String::from("(1+2)")),
        Ok(vec![
            tok(TokenType::LParen, 0),
            tok(TokenType::Int(1), 1),
            tok(TokenType::Add, 2),
            tok(TokenType::Int(2), 3),
            tok(TokenType::RParen, 4),
        ])
    );
}

#[test]
fn whitespace_is_dropped_and_offsets_count_it() {
    assert_eq!(
        tokenize_string(String::from(" 2 +\n3 ")),
        Ok(vec![
            tok(TokenType::Int(2), 1),
            tok(TokenType::Add, 3),
            tok(TokenType::Int(3), 5),
        ])
    );
}

#[test]
fn whitespace_is_insignificant() {
    assert_eq!(kinds("2+3"), kinds(" 2 + 3 "));
    assert_eq!(kinds("(1*2)^3"), kinds("\n( 1 *\n2 ) ^ 3\n\n"));
    assert_eq!(
        kinds("2+3"),
        vec![TokenType::Int(2), TokenType::Add, TokenType::Int(3)]
    );
}

#[test]
fn no_token_is_whitespace() {
    let tokens = tokenize_string(String::from(" 1 \n + \n 2 ")).unwrap();
    assert!(tokens.iter().all(|t| t.token_type != TokenType::Whitespace));
    assert_eq!(tokens.len(), 3);
}

#[test]
fn empty_source_has_no_tokens() {
    assert_eq!(tokenize_string(String::new()), Ok(vec![]));
}

#[test]
fn whitespace_only_source_has_no_tokens() {
    assert_eq!(tokenize_string(String::from("  \n \n")), Ok(vec![]));
}

#[test]
fn digits_are_never_joined() {
    assert_eq!(
        tokenize_string(String::from("23")),
        Ok(vec![tok(TokenType::Int(2), 0), tok(TokenType::Int(3), 1)])
    );
    assert_eq!(
        kinds("1230"),
        vec![
            TokenType::Int(1),
            TokenType::Int(2),
            TokenType::Int(3),
            TokenType::Int(0),
        ]
    );
    assert_eq!(
        kinds("10+007"),
        vec![
            TokenType::Int(1),
            TokenType::Int(0),
            TokenType::Add,
            TokenType::Int(0),
            TokenType::Int(0),
            TokenType::Int(7),
        ]
    );
}

#[test]
fn unrecognized_character_is_a_lex_error() {
    assert_eq!(
        tokenize_string(String::from("2#3")),
        Err(LexError { character: '#', offset: 1 })
    );
}

#[test]
fn the_first_unrecognized_character_is_reported() {
    assert_eq!(
        tokenize_string(String::from("1 + $ & 2")),
        Err(LexError { character: '$', offset: 4 })
    );
}

#[test]
fn characters_outside_ascii_are_rejected_at_their_character_offset() {
    assert_eq!(
        tokenize_string(String::from("ab\u{e9}cd")),
        Err(LexError { character: '\u{e9}', offset: 2 })
    );
    assert_eq!(
        tokenize_string(String::from("\u{1F600}")),
        Err(LexError { character: '\u{1F600}', offset: 0 })
    );
}

#[test]
fn tab_is_not_whitespace() {
    assert_eq!(
        tokenize_string(String::from("1\t2")),
        Err(LexError { character: '\t', offset: 1 })
    );
}
