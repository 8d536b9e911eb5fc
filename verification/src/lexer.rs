//! The tokenizer: turns source text into the stream of lexical symbols
//! the parser consumes, by maximal munch. Spacing and comments are
//! skipped; keywords win over identifiers only on an exact match; a
//! number is digits with at most one fractional part; a string keeps
//! its escape sequences unprocessed. The whole of it is specified by
//! `spec_tokenize`, and `tokenize` is proved to compute exactly that.

pub mod token;

use vstd::prelude::*;
use vstd::string::StrSliceExecFns;
use vstd::string::StringExecFns;

use crate::lexer::token::{Token, TokenView};

verus! {

/// Why tokenizing failed: some position starts no symbol.
#[derive(Debug, Clone, PartialEq, Eq)]
pub enum LexerError {
    Error(String),
}

/// Mathematical image of `LexerError`.
pub enum LexerErrorView {
    Error(Seq<char>),
}

impl View for LexerError {
    type V = LexerErrorView;

    open spec fn view(&self) -> LexerErrorView {
        match self {
            LexerError::Error(s) => LexerErrorView::Error(s@),
        }
    }
}

/// Space, tab, newline or carriage return.
pub open spec fn is_whitespace_char(c: char) -> bool {
    c == ' ' || c == '\t' || c == '\n' || c == '\r'
}

/// A decimal digit.
pub open spec fn is_digit_char(c: char) -> bool {
    48 <= c as u32 && c as u32 <= 57
}

/// A letter or underscore, the start of an identifier.
pub open spec fn is_ident_start(c: char) -> bool {
    (97 <= c as u32 && c as u32 <= 122) || (65 <= c as u32 && c as u32 <= 90) || c == '_'
}

/// A letter, digit or underscore, the continuation of an identifier.
pub open spec fn is_ident_continue(c: char) -> bool {
    is_ident_start(c) || is_digit_char(c)
}

/// The single-character symbols.
pub open spec fn symbol_token(c: char) -> Option<TokenView> {
    if c == '(' {
        Some(TokenView::LParen)
    } else if c == ')' {
        Some(TokenView::RParen)
    } else if c == '{' {
        Some(TokenView::LBrace)
    } else if c == '}' {
        Some(TokenView::RBrace)
    } else if c == '[' {
        Some(TokenView::LBracket)
    } else if c == ']' {
        Some(TokenView::RBracket)
    } else if c == ';' {
        Some(TokenView::Semicolon)
    } else if c == ':' {
        Some(TokenView::Colon)
    } else if c == ',' {
        Some(TokenView::Comma)
    } else if c == '.' {
        Some(TokenView::Dot)
    } else {
        None
    }
}

/// An identifier run is a keyword only on an exact match.
pub open spec fn keyword_or_identifier(run: Seq<char>) -> TokenView {
    if run == "realm"@ {
        TokenView::Realm
    } else if run == "essence"@ {
        TokenView::Essence
    } else if run == "being"@ {
        TokenView::Being
    } else if run == "ritual"@ {
        TokenView::Ritual
    } else if run == "cycle"@ {
        TokenView::Cycle
    } else if run == "seal"@ {
        TokenView::Seal
    } else if run == "perceptions"@ {
        TokenView::Perceptions
    } else if run == "extensions"@ {
        TokenView::Extensions
    } else if run == "memory"@ {
        TokenView::Memory
    } else if run == "hive"@ {
        TokenView::Hive
    } else {
        TokenView::Identifier(run)
    }
}

/// The first position at or after `i` that does not continue an
/// identifier.
pub open spec fn ident_end(s: Seq<char>, i: int) -> int
    decreases s.len() - i,
{
    if 0 <= i < s.len() && is_ident_continue(s[i]) {
        ident_end(s, i + 1)
    } else {
        i
    }
}

/// The first position at or after `i` that is not a digit.
pub open spec fn digits_end(s: Seq<char>, i: int) -> int
    decreases s.len() - i,
{
    if 0 <= i < s.len() && is_digit_char(s[i]) {
        digits_end(s, i + 1)
    } else {
        i
    }
}

/// The first newline at or after `i`, or the end of the text: where a
/// line comment stops.
pub open spec fn line_end(s: Seq<char>, i: int) -> int
    decreases s.len() - i,
{
    if 0 <= i < s.len() && s[i] != '\n' {
        line_end(s, i + 1)
    } else {
        i
    }
}

/// The position just past the `*/` that closes a block comment whose
/// body starts at `i`, if the body decomposes into plain characters
/// and star-pairs; `None` when it does not, and the comment is no
/// symbol at all.
pub open spec fn block_end(s: Seq<char>, i: int) -> Option<int>
    decreases s.len() - i,
{
    if i < 0 || i >= s.len() {
        None
    } else if s[i] == '*' {
        if i + 1 < s.len() {
            if s[i + 1] == '/' {
                Some(i + 2)
            } else {
                block_end(s, i + 2)
            }
        } else {
            None
        }
    } else {
        block_end(s, i + 1)
    }
}

/// The position of the closing quote of a string whose body starts at
/// `i`; a backslash escapes the character after it, a line break
/// excepted — an escape may not span lines, though a bare line break
/// inside the string is an ordinary character.
pub open spec fn string_end(s: Seq<char>, i: int) -> Option<int>
    decreases s.len() - i,
{
    if i < 0 || i >= s.len() {
        None
    } else if s[i] == '"' {
        Some(i)
    } else if s[i] == '\\' {
        if i + 1 < s.len() && s[i + 1] != '\n' {
            string_end(s, i + 2)
        } else {
            None
        }
    } else {
        string_end(s, i + 1)
    }
}

proof fn lemma_ident_end(s: Seq<char>, i: int)
    requires
        0 <= i <= s.len(),
    ensures
        i <= ident_end(s, i) <= s.len(),
    decreases s.len() - i,
{
    if i < s.len() && is_ident_continue(s[i]) {
        lemma_ident_end(s, i + 1);
    }
}

proof fn lemma_digits_end(s: Seq<char>, i: int)
    requires
        0 <= i <= s.len(),
    ensures
        i <= digits_end(s, i) <= s.len(),
    decreases s.len() - i,
{
    if i < s.len() && is_digit_char(s[i]) {
        lemma_digits_end(s, i + 1);
    }
}

proof fn lemma_line_end(s: Seq<char>, i: int)
    requires
        0 <= i <= s.len(),
    ensures
        i <= line_end(s, i) <= s.len(),
    decreases s.len() - i,
{
    if i < s.len() && s[i] != '\n' {
        lemma_line_end(s, i + 1);
    }
}

proof fn lemma_block_end(s: Seq<char>, i: int)
    requires
        0 <= i,
    ensures
        block_end(s, i) is Some ==> i < block_end(s, i)->Some_0 <= s.len(),
    decreases s.len() - i,
{
    if 0 <= i < s.len() {
        if s[i] == '*' {
            if i + 1 < s.len() && s[i + 1] != '/' {
                lemma_block_end(s, i + 2);
            }
        } else {
            lemma_block_end(s, i + 1);
        }
    }
}

proof fn lemma_string_end(s: Seq<char>, i: int)
    requires
        0 <= i,
    ensures
        string_end(s, i) is Some ==> i <= string_end(s, i)->Some_0 < s.len(),
    decreases s.len() - i,
{
    if 0 <= i < s.len() {
        if s[i] == '"' {
        } else if s[i] == '\\' {
            if i + 1 < s.len() && s[i + 1] != '\n' {
                lemma_string_end(s, i + 2);
            }
        } else {
            lemma_string_end(s, i + 1);
        }
    }
}

/// Prepends one symbol to a tokenizing outcome.
pub open spec fn prepend(t: TokenView, r: Result<Seq<TokenView>, ()>) -> Result<
    Seq<TokenView>,
    (),
> {
    match r {
        Ok(rest) => Ok(seq![t] + rest),
        Err(x) => Err(x),
    }
}

/// Prepends already-produced symbols to a tokenizing outcome.
pub open spec fn prepend_all(prefix: Seq<TokenView>, r: Result<Seq<TokenView>, ()>) -> Result<
    Seq<TokenView>,
    (),
> {
    match r {
        Ok(rest) => Ok(prefix + rest),
        Err(x) => Err(x),
    }
}

/// The symbols of the text from position `i` on, by maximal munch, or
/// failure when some position starts no symbol.
pub open spec fn spec_tokenize_from(s: Seq<char>, i: int) -> Result<Seq<TokenView>, ()>
    decreases s.len() - i,
    via spec_tokenize_from_decreases
{
    if i < 0 || i >= s.len() {
        Ok(Seq::empty())
    } else {
        let c = s[i];
        if is_whitespace_char(c) {
            spec_tokenize_from(s, i + 1)
        } else if c == '/' {
            if i + 1 < s.len() && s[i + 1] == '/' {
                spec_tokenize_from(s, line_end(s, i + 2))
            } else if i + 1 < s.len() && s[i + 1] == '*' {
                match block_end(s, i + 2) {
                    Some(j) => spec_tokenize_from(s, j),
                    None => Err(()),
                }
            } else {
                Err(())
            }
        } else if is_ident_start(c) {
            let e = ident_end(s, i + 1);
            prepend(keyword_or_identifier(s.subrange(i, e)), spec_tokenize_from(s, e))
        } else if is_digit_char(c) {
            let d1 = digits_end(s, i + 1);
            if d1 < s.len() && s[d1] == '.' && d1 + 1 < s.len() && is_digit_char(s[d1 + 1]) {
                let d2 = digits_end(s, d1 + 2);
                prepend(TokenView::Number(s.subrange(i, d2)), spec_tokenize_from(s, d2))
            } else {
                prepend(TokenView::Number(s.subrange(i, d1)), spec_tokenize_from(s, d1))
            }
        } else if c == '"' {
            match string_end(s, i + 1) {
                Some(j) => prepend(
                    TokenView::String(s.subrange(i + 1, j)),
                    spec_tokenize_from(s, j + 1),
                ),
                None => Err(()),
            }
        } else {
            match symbol_token(c) {
                Some(t) => prepend(t, spec_tokenize_from(s, i + 1)),
                None => Err(()),
            }
        }
    }
}

#[via_fn]
proof fn spec_tokenize_from_decreases(s: Seq<char>, i: int) {
    if 0 <= i < s.len() {
        if i + 2 <= s.len() {
            lemma_line_end(s, i + 2);
            lemma_block_end(s, i + 2);
        }
        lemma_ident_end(s, i + 1);
        lemma_digits_end(s, i + 1);
        let d1 = digits_end(s, i + 1);
        if d1 + 2 <= s.len() {
            lemma_digits_end(s, d1 + 2);
        }
        lemma_string_end(s, i + 1);
    }
}

/// The symbols of a whole text.
pub open spec fn spec_tokenize(s: Seq<char>) -> Result<Seq<TokenView>, ()> {
    spec_tokenize_from(s, 0)
}

fn char_is_whitespace(c: char) -> (r: bool)
    ensures
        r == is_whitespace_char(c),
{
    c == ' ' || c == '\t' || c == '\n' || c == '\r'
}

fn char_is_digit(c: char) -> (r: bool)
    ensures
        r == is_digit_char(c),
{
    let u = c as u32;
    48 <= u && u <= 57
}

fn char_is_ident_start(c: char) -> (r: bool)
    ensures
        r == is_ident_start(c),
{
    let u = c as u32;
    (97 <= u && u <= 122) || (65 <= u && u <= 90) || c == '_'
}

fn char_is_ident_continue(c: char) -> (r: bool)
    ensures
        r == is_ident_continue(c),
{
    char_is_ident_start(c) || char_is_digit(c)
}

fn symbol_token_of(c: char) -> (r: Option<Token>)
    ensures
        (match r {
            Some(t) => symbol_token(c) == Some(t@),
            None => symbol_token(c) is None,
        }),
{
    if c == '(' {
        Some(Token::LParen)
    } else if c == ')' {
        Some(Token::RParen)
    } else if c == '{' {
        Some(Token::LBrace)
    } else if c == '}' {
        Some(Token::RBrace)
    } else if c == '[' {
        Some(Token::LBracket)
    } else if c == ']' {
        Some(Token::RBracket)
    } else if c == ';' {
        Some(Token::Semicolon)
    } else if c == ':' {
        Some(Token::Colon)
    } else if c == ',' {
        Some(Token::Comma)
    } else if c == '.' {
        Some(Token::Dot)
    } else {
        None
    }
}

fn keyword_or_identifier_token(text: String) -> (t: Token)
    ensures
        t@ == keyword_or_identifier(text@),
{
    if text.eq(&String::from_str("realm")) {
        Token::Realm
    } else if text.eq(&String::from_str("essence")) {
        Token::Essence
    } else if text.eq(&String::from_str("being")) {
        Token::Being
    } else if text.eq(&String::from_str("ritual")) {
        Token::Ritual
    } else if text.eq(&String::from_str("cycle")) {
        Token::Cycle
    } else if text.eq(&String::from_str("seal")) {
        Token::Seal
    } else if text.eq(&String::from_str("perceptions")) {
        Token::Perceptions
    } else if text.eq(&String::from_str("extensions")) {
        Token::Extensions
    } else if text.eq(&String::from_str("memory")) {
        Token::Memory
    } else if text.eq(&String::from_str("hive")) {
        Token::Hive
    } else {
        Token::Identifier(text)
    }
}

fn scan_ident_end(source: &str, start: usize, n: usize) -> (e: usize)
    requires
        n == source@.len(),
        start <= n,
    ensures
        e as int == ident_end(source@, start as int),
        start <= e <= n,
{
    let mut j = start;
    while j < n
        invariant
            start <= j <= n,
            n == source@.len(),
            ident_end(source@, start as int) == ident_end(source@, j as int),
        decreases n - j,
    {
        let c = source.get_char(j);
        if !char_is_ident_continue(c) {
            return j;
        }
        j += 1;
    }
    j
}

fn scan_digits_end(source: &str, start: usize, n: usize) -> (e: usize)
    requires
        n == source@.len(),
        start <= n,
    ensures
        e as int == digits_end(source@, start as int),
        start <= e <= n,
{
    let mut j = start;
    while j < n
        invariant
            start <= j <= n,
            n == source@.len(),
            digits_end(source@, start as int) == digits_end(source@, j as int),
        decreases n - j,
    {
        let c = source.get_char(j);
        if !char_is_digit(c) {
            return j;
        }
        j += 1;
    }
    j
}

fn scan_line_end(source: &str, start: usize, n: usize) -> (e: usize)
    requires
        n == source@.len(),
        start <= n,
    ensures
        e as int == line_end(source@, start as int),
        start <= e <= n,
{
    let mut j = start;
    while j < n
        invariant
            start <= j <= n,
            n == source@.len(),
            line_end(source@, start as int) == line_end(source@, j as int),
        decreases n - j,
    {
        let c = source.get_char(j);
        if c == '\n' {
            return j;
        }
        j += 1;
    }
    j
}

fn scan_block_end(source: &str, start: usize, n: usize) -> (r: Option<usize>)
    requires
        n == source@.len(),
        start <= n,
    ensures
        (match r {
            Some(j) => block_end(source@, start as int) == Some(j as int) && start < j <= n,
            None => block_end(source@, start as int) is None,
        }),
{
    let mut m = start;
    while m < n
        invariant
            start <= m <= n,
            n == source@.len(),
            block_end(source@, start as int) == block_end(source@, m as int),
        decreases n - m,
    {
        let c = source.get_char(m);
        if c == '*' {
            if m + 1 < n {
                let c2 = source.get_char(m + 1);
                if c2 == '/' {
                    proof {
                        lemma_block_end(source@, start as int);
                    }
                    return Some(m + 2);
                }
                m += 2;
            } else {
                return None;
            }
        } else {
            m += 1;
        }
    }
    None
}

fn scan_string_end(source: &str, start: usize, n: usize) -> (r: Option<usize>)
    requires
        n == source@.len(),
        start <= n,
    ensures
        (match r {
            Some(j) => string_end(source@, start as int) == Some(j as int) && start <= j < n,
            None => string_end(source@, start as int) is None,
        }),
{
    let mut m = start;
    while m < n
        invariant
            start <= m <= n,
            n == source@.len(),
            string_end(source@, start as int) == string_end(source@, m as int),
        decreases n - m,
    {
        let c = source.get_char(m);
        if c == '"' {
            proof {
                lemma_string_end(source@, start as int);
            }
            return Some(m);
        }
        if c == '\\' {
            if m + 1 < n {
                let c2 = source.get_char(m + 1);
                if c2 == '\n' {
                    return None;
                }
                m += 2;
            } else {
                return None;
            }
        } else {
            m += 1;
        }
    }
    None
}

fn invalid_token_error() -> (e: LexerError)
    ensures
        e@ == LexerErrorView::Error("Invalid token"@),
{
    LexerError::Error(String::from_str("Invalid token"))
}

proof fn lemma_push_token(a: Seq<TokenView>, t: TokenView, r: Result<Seq<TokenView>, ()>)
    ensures
        prepend_all(a, prepend(t, r)) == prepend_all(a.push(t), r),
{
    match r {
        Ok(rest) => {
            assert(a + (seq![t] + rest) =~= a.push(t) + rest);
        },
        Err(_) => {},
    }
}

/// Tokenizes source text into a stream of symbols: exactly the symbols
/// `spec_tokenize` names, or the lexing error as soon as some position
/// starts none.
pub fn tokenize(source: &str) -> (r: Result<Vec<Token>, LexerError>)
    ensures
        (match r {
            Ok(tokens) => spec_tokenize(source@) == Ok::<Seq<TokenView>, ()>(tokens.deep_view()),
            Err(e) => spec_tokenize(source@) is Err && e@ == (LexerErrorView::Error(
                "Invalid token"@,
            )),
        }),
{
    let n = source.unicode_len();
    let mut tokens: Vec<Token> = Vec::new();
    let mut i: usize = 0;
    while i < n
        invariant
            i <= n,
            n == source@.len(),
            spec_tokenize_from(source@, 0) == prepend_all(
                tokens.deep_view(),
                spec_tokenize_from(source@, i as int),
            ),
        decreases n - i,
    {
        let ghost a0 = tokens.deep_view();
        let c = source.get_char(i);
        if char_is_whitespace(c) {
            i += 1;
        } else if c == '/' {
            if i + 1 < n {
                let c2 = source.get_char(i + 1);
                if c2 == '/' {
                    let j = scan_line_end(source, i + 2, n);
                    i = j;
                } else if c2 == '*' {
                    match scan_block_end(source, i + 2, n) {
                        Some(j) => {
                            i = j;
                        },
                        None => {
                            return Err(invalid_token_error());
                        },
                    }
                } else {
                    return Err(invalid_token_error());
                }
            } else {
                return Err(invalid_token_error());
            }
        } else if char_is_ident_start(c) {
            let e = scan_ident_end(source, i + 1, n);
            let text = source.substring_char(i, e).to_owned();
            let tok = keyword_or_identifier_token(text);
            let ghost tv = tok@;
            proof {
                lemma_push_token(a0, tv, spec_tokenize_from(source@, e as int));
            }
            tokens.push(tok);
            proof {
                assert(tokens.deep_view() =~= a0.push(tv));
            }
            i = e;
        } else if char_is_digit(c) {
            let d1 = scan_digits_end(source, i + 1, n);
            let mut stop = d1;
            if d1 < n {
                let cd = source.get_char(d1);
                if cd == '.' && d1 + 1 < n {
                    let cd2 = source.get_char(d1 + 1);
                    if char_is_digit(cd2) {
                        stop = scan_digits_end(source, d1 + 2, n);
                    }
                }
            }
            let text = source.substring_char(i, stop).to_owned();
            let tok = Token::Number(text);
            let ghost tv = tok@;
            proof {
                lemma_push_token(a0, tv, spec_tokenize_from(source@, stop as int));
            }
            tokens.push(tok);
            proof {
                assert(tokens.deep_view() =~= a0.push(tv));
            }
            i = stop;
        } else if c == '"' {
            match scan_string_end(source, i + 1, n) {
                Some(j) => {
                    let text = source.substring_char(i + 1, j).to_owned();
                    let tok = Token::String(text);
                    let ghost tv = tok@;
                    proof {
                        lemma_push_token(a0, tv, spec_tokenize_from(source@, j + 1));
                    }
                    tokens.push(tok);
                    proof {
                        assert(tokens.deep_view() =~= a0.push(tv));
                    }
                    i = j + 1;
                },
                None => {
                    return Err(invalid_token_error());
                },
            }
        } else {
            match symbol_token_of(c) {
                Some(tok) => {
                    let ghost tv = tok@;
                    proof {
                        lemma_push_token(a0, tv, spec_tokenize_from(source@, i + 1));
                    }
                    tokens.push(tok);
                    proof {
                        assert(tokens.deep_view() =~= a0.push(tv));
                    }
                    i += 1;
                },
                None => {
                    return Err(invalid_token_error());
                },
            }
        }
    }
    proof {
        assert(tokens.deep_view() + Seq::<TokenView>::empty() =~= tokens.deep_view());
    }
    Ok(tokens)
}

} // verus!
