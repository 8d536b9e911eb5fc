//! The lexical symbols of the language, and their mathematical views.

use vstd::prelude::*;

verus! {

/// One lexical symbol. `Identifier`, `String` and `Number` carry their
/// text; a `Number` keeps the digits (and at most one fractional part)
/// exactly as written, and a `String` keeps the characters between the
/// quotes with escape sequences unprocessed. `Whitespace` and `Error`
/// never appear in a token stream: spacing and comments are skipped,
/// and an unlexable input fails as a whole.
#[derive(Debug, Clone, PartialEq, Eq, Hash)]
pub enum Token {
    Realm,
    Essence,
    Being,
    Ritual,
    Cycle,
    Seal,
    Perceptions,
    Extensions,
    Memory,
    Hive,
    Identifier(String),
    String(String),
    Number(String),
    LParen,
    RParen,
    LBrace,
    RBrace,
    LBracket,
    RBracket,
    Semicolon,
    Colon,
    Comma,
    Dot,
    Whitespace,
    Error,
}

/// Mathematical image of `Token`: carried text as character sequences.
pub enum TokenView {
    Realm,
    Essence,
    Being,
    Ritual,
    Cycle,
    Seal,
    Perceptions,
    Extensions,
    Memory,
    Hive,
    Identifier(Seq<char>),
    String(Seq<char>),
    Number(Seq<char>),
    LParen,
    RParen,
    LBrace,
    RBrace,
    LBracket,
    RBracket,
    Semicolon,
    Colon,
    Comma,
    Dot,
    Whitespace,
    Error,
}

impl View for Token {
    type V = TokenView;

    open spec fn view(&self) -> TokenView {
        match self {
            Token::Realm => TokenView::Realm,
            Token::Essence => TokenView::Essence,
            Token::Being => TokenView::Being,
            Token::Ritual => TokenView::Ritual,
            Token::Cycle => TokenView::Cycle,
            Token::Seal => TokenView::Seal,
            Token::Perceptions => TokenView::Perceptions,
            Token::Extensions => TokenView::Extensions,
            Token::Memory => TokenView::Memory,
            Token::Hive => TokenView::Hive,
            Token::Identifier(s) => TokenView::Identifier(s@),
            Token::String(s) => TokenView::String(s@),
            Token::Number(s) => TokenView::Number(s@),
            Token::LParen => TokenView::LParen,
            Token::RParen => TokenView::RParen,
            Token::LBrace => TokenView::LBrace,
            Token::RBrace => TokenView::RBrace,
            Token::LBracket => TokenView::LBracket,
            Token::RBracket => TokenView::RBracket,
            Token::Semicolon => TokenView::Semicolon,
            Token::Colon => TokenView::Colon,
            Token::Comma => TokenView::Comma,
            Token::Dot => TokenView::Dot,
            Token::Whitespace => TokenView::Whitespace,
            Token::Error => TokenView::Error,
        }
    }
}

impl DeepView for Token {
    type V = TokenView;

    open spec fn deep_view(&self) -> TokenView {
        self.view()
    }
}

} // verus!
