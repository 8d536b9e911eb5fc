use nervs::lexer::token::Token;
use nervs::lexer::{tokenize, LexerError};

fn ident(s: &str) -> Token {
    Token::Identifier(s.to_string())
}

fn number(s: &str) -> Token {
    Token::Number(s.to_string())
}

#[test]
fn keywords_and_structure_tokenize() {
    let tokens = tokenize("realm MathRealm { being Calc { } }").unwrap();
    assert_eq!(
        tokens,
        vec![
            Token::Realm,
            ident("MathRealm"),
            Token::LBrace,
            Token::Being,
            ident("Calc"),
            Token::LBrace,
            Token::RBrace,
            Token::RBrace,
        ]
    );
}

#[test]
fn every_keyword_is_recognized() {
    let tokens =
        tokenize("realm essence being ritual cycle seal perceptions extensions memory hive")
            .unwrap();
    assert_eq!(
        tokens,
        vec![
            Token::Realm,
            Token::Essence,
            Token::Being,
            Token::Ritual,
            Token::Cycle,
            Token::Seal,
            Token::Perceptions,
            Token::Extensions,
            Token::Memory,
            Token::Hive,
        ]
    );
}

#[test]
fn longer_word_is_identifier_not_keyword() {
    assert_eq!(tokenize("realms").unwrap(), vec![ident("realms")]);
    assert_eq!(tokenize("cycles").unwrap(), vec![ident("cycles")]);
    assert_eq!(tokenize("_realm").unwrap(), vec![ident("_realm")]);
}

#[test]
fn numbers_take_at_most_one_fraction() {
    let tokens = tokenize("12 3.14 1. 1.2.3").unwrap();
    assert_eq!(
        tokens,
        vec![
            number("12"),
            number("3.14"),
            number("1"),
            Token::Dot,
            number("1.2"),
            Token::Dot,
            number("3"),
        ]
    );
}

#[test]
fn strings_keep_escapes_unprocessed() {
    let tokens = tokenize("\"hello\" \"a\\\"b\"").unwrap();
    assert_eq!(
        tokens,
        vec![Token::String("hello".to_string()), Token::String("a\\\"b".to_string())]
    );
}

#[test]
fn unterminated_string_fails() {
    assert_eq!(
        tokenize("\"open"),
        Err(LexerError::Error("Invalid token".to_string()))
    );
}

#[test]
fn punctuation_tokenizes() {
    let tokens = tokenize("()[]{};:,.").unwrap();
    assert_eq!(
        tokens,
        vec![
            Token::LParen,
            Token::RParen,
            Token::LBracket,
            Token::RBracket,
            Token::LBrace,
            Token::RBrace,
            Token::Semicolon,
            Token::Colon,
            Token::Comma,
            Token::Dot,
        ]
    );
}

#[test]
fn line_comments_are_skipped() {
    let tokens = tokenize("a // the rest vanishes\nb").unwrap();
    assert_eq!(tokens, vec![ident("a"), ident("b")]);
}

#[test]
fn block_comments_are_skipped() {
    let tokens = tokenize("a /* vanishes */ b").unwrap();
    assert_eq!(tokens, vec![ident("a"), ident("b")]);
    assert_eq!(tokenize("a /**/ b").unwrap(), vec![ident("a"), ident("b")]);
}

#[test]
fn unterminated_block_comment_fails() {
    assert_eq!(
        tokenize("a /* open"),
        Err(LexerError::Error("Invalid token".to_string()))
    );
}

#[test]
fn block_comment_body_cannot_end_with_extra_star() {
    // the comment body decomposes into plain characters and star-pairs,
    // so a body ending in a stray star never reaches the terminator
    assert_eq!(
        tokenize("/***/"),
        Err(LexerError::Error("Invalid token".to_string()))
    );
}

#[test]
fn unknown_character_fails() {
    assert_eq!(tokenize("@"), Err(LexerError::Error("Invalid token".to_string())));
    assert_eq!(tokenize("a + b"), Err(LexerError::Error("Invalid token".to_string())));
}

#[test]
fn whitespace_only_gives_no_tokens() {
    assert_eq!(tokenize("  \t\r\n ").unwrap(), Vec::<Token>::new());
    assert_eq!(tokenize("").unwrap(), Vec::<Token>::new());
}

#[test]
fn declaration_line_tokenizes() {
    let tokens = tokenize("ritual add(a: int, b: int) int { return a; }").unwrap();
    assert_eq!(
        tokens,
        vec![
            Token::Ritual,
            ident("add"),
            Token::LParen,
            ident("a"),
            Token::Colon,
            ident("int"),
            Token::Comma,
            ident("b"),
            Token::Colon,
            ident("int"),
            Token::RParen,
            ident("int"),
            Token::LBrace,
            ident("return"),
            ident("a"),
            Token::Semicolon,
            Token::RBrace,
        ]
    );
}

#[test]
fn escape_may_not_span_lines() {
    // a backslash escapes the next character, a line break excepted; a
    // bare line break inside a string is an ordinary character
    assert_eq!(
        tokenize("\"a\\\nb\""),
        Err(LexerError::Error("Invalid token".to_string()))
    );
    assert_eq!(
        tokenize("\"a\nb\"").unwrap(),
        vec![Token::String("a\nb".to_string())]
    );
}
