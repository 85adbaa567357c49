use arith_parser::parser::tokenizer::{Token, TokenType};

#[test]
fn operator_and_parenthesis_tokens_render_as_names() {
    assert_eq!(TokenType::Add.render(), "add");
    assert_eq!(TokenType::Sub.render(), "sub");
    assert_eq!(TokenType::Mul.render(), "mul");
    assert_eq!(TokenType::Div.render(), "div");
    assert_eq!(TokenType::Exp.render(), "exp");
    assert_eq!(TokenType::LParen.render(), "l_paren");
    assert_eq!(TokenType::RParen.render(), "r_paren");
    assert_eq!(TokenType::Whitespace.render(), "whitespace");
}

#[test]
fn literal_tokens_render_as_their_number() {
    assert_eq!(TokenType::Int(0).render(), "0");
    assert_eq!(TokenType::Int(7).render(), "7");
    assert_eq!(TokenType::Int(9).render(), "9");
    assert_eq!(TokenType::Int(10).render(), "10");
    assert_eq!(TokenType::Int(42).render(), "42");
    assert_eq!(TokenType::Int(1000).render(), "1000");
    assert_eq!(TokenType::Int(90210).render(), "90210");
    assert_eq!(TokenType::Int(u32::MAX).render(), "4294967295");
}

#[test]
fn tokens_with_a_payload_render_it_in_parentheses() {
    assert_eq!(TokenType::Char('x').render(), "char(x)");
    assert_eq!(TokenType::Char('Q').render(), "char(Q)");
    assert_eq!(TokenType::Identifier(String::from("foo")).render(), "id(foo)");
    assert_eq!(TokenType::Identifier(String::new()).render(), "id()");
    assert_eq!(
        TokenType::Keyword(String::from("let")).render(),
        "keyword(let)"
    );
}

#[test]
fn a_token_renders_as_its_kind() {
    let token = Token { token_type: TokenType::Int(5), offset: 12 };
    assert_eq!(token.render(), "5");
    let token = Token { token_type: TokenType::LParen, offset: 0 };
    assert_eq!(token.render(), "l_paren");
}

#[test]
fn token_text_is_appended_to_what_is_there() {
    let mut out = String::from(">> ");
    TokenType::Char('k').render_into(&mut out);
    TokenType::Int(308).render_into(&mut out);
    assert_eq!(out, ">> char(k)308");
}
