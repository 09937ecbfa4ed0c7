//! Tokens: where each one lies in the source text and what kind it is.

use crate::text::{
    digit, digit_value, digits_value, is_digit, is_name_part, is_name_start, is_whitespace,
    name_part, name_start, whitespace,
};
use vstd::prelude::*;

verus! {

/// The kinds of token.
#[derive(Clone, Copy, Debug, PartialEq, Eq)]
pub enum TokenKind {
    /// The keyword `fn`.
    Fn,
    /// The keyword `let`.
    Let,
    /// A name: a letter or underscore, then letters, digits and underscores.
    Name,
    /// An integer literal with its value.
    Number(i32),
    /// An integer literal above the largest 32-bit signed value.
    Oversized,
    OpenParen,
    CloseParen,
    OpenBrace,
    CloseBrace,
    Colon,
    Comma,
    Semicolon,
    Assign,
    Plus,
    Minus,
    Star,
    Slash,
    /// `++`
    Increment,
    /// `--`
    Decrement,
    /// A character that belongs to no token.
    Unknown,
}

/// A token: its kind and the characters `start..end` of the source that it
/// covers.
#[derive(Clone, Copy, Debug, PartialEq, Eq)]
pub struct Token {
    pub kind: TokenKind,
    pub start: usize,
    pub end: usize,
}

/// The characters `fn`.
pub open spec fn keyword_fn() -> Seq<char> {
    seq!['f', 'n']
}

/// The characters `let`.
pub open spec fn keyword_let() -> Seq<char> {
    seq!['l', 'e', 't']
}

/// How many characters from `pos` on continue a name.
pub open spec fn name_run(src: Seq<char>, pos: int) -> nat
    decreases src.len() - pos,
{
    if 0 <= pos < src.len() && name_part(src[pos]) {
        1 + name_run(src, pos + 1)
    } else {
        0
    }
}

/// How many characters from `pos` on are digits.
pub open spec fn digit_run(src: Seq<char>, pos: int) -> nat
    decreases src.len() - pos,
{
    if 0 <= pos < src.len() && digit(src[pos]) {
        1 + digit_run(src, pos + 1)
    } else {
        0
    }
}

/// The length of the token that starts at `pos`: a name or a number runs as
/// far as it can, `++` and `--` are two characters, anything else is one.
pub open spec fn lexeme_len(src: Seq<char>, pos: int) -> nat
    recommends
        0 <= pos < src.len(),
{
    let c = src[pos];
    if name_start(c) {
        1 + name_run(src, pos + 1)
    } else if digit(c) {
        1 + digit_run(src, pos + 1)
    } else if (c == '+' || c == '-') && pos + 1 < src.len() && src[pos + 1] == c {
        2
    } else {
        1
    }
}

/// The kind of a token of one character that is neither a name nor a
/// number.
pub open spec fn symbol_kind(c: char) -> TokenKind {
    if c == '(' {
        TokenKind::OpenParen
    } else if c == ')' {
        TokenKind::CloseParen
    } else if c == '{' {
        TokenKind::OpenBrace
    } else if c == '}' {
        TokenKind::CloseBrace
    } else if c == ':' {
        TokenKind::Colon
    } else if c == ',' {
        TokenKind::Comma
    } else if c == ';' {
        TokenKind::Semicolon
    } else if c == '=' {
        TokenKind::Assign
    } else if c == '+' {
        TokenKind::Plus
    } else if c == '-' {
        TokenKind::Minus
    } else if c == '*' {
        TokenKind::Star
    } else if c == '/' {
        TokenKind::Slash
    } else {
        TokenKind::Unknown
    }
}

/// The kind of the token that covers `src[pos..end]`.
pub open spec fn lexeme_kind(src: Seq<char>, pos: int, end: int) -> TokenKind
    recommends
        0 <= pos < end <= src.len(),
{
    let c = src[pos];
    let text = src.subrange(pos, end);
    if name_start(c) {
        if text == keyword_fn() {
            TokenKind::Fn
        } else if text == keyword_let() {
            TokenKind::Let
        } else {
            TokenKind::Name
        }
    } else if digit(c) {
        if digits_value(text) <= i32::MAX {
            TokenKind::Number(digits_value(text) as i32)
        } else {
            TokenKind::Oversized
        }
    } else if end - pos == 2 {
        if c == '+' {
            TokenKind::Increment
        } else {
            TokenKind::Decrement
        }
    } else {
        symbol_kind(c)
    }
}

/// A run of name or digit characters ends within the text.
pub proof fn lemma_run_fits(src: Seq<char>, pos: int)
    requires
        0 <= pos <= src.len(),
    ensures
        pos + name_run(src, pos) <= src.len(),
        pos + digit_run(src, pos) <= src.len(),
    decreases src.len() - pos,
{
    if pos < src.len() {
        lemma_run_fits(src, pos + 1);
    }
}

/// A token covers at least one character and ends within the text.
pub proof fn lemma_lexeme_fits(src: Seq<char>, pos: int)
    requires
        0 <= pos < src.len(),
    ensures
        pos < pos + lexeme_len(src, pos) <= src.len(),
{
    lemma_run_fits(src, pos + 1);
}

/// The token that starts at `pos`.
pub open spec fn token_at(src: Seq<char>, pos: int) -> Token
    recommends
        0 <= pos < src.len(),
{
    let end = pos + lexeme_len(src, pos);
    Token { kind: lexeme_kind(src, pos, end), start: pos as usize, end: end as usize }
}

/// `acc` followed by the tokens of `src[pos..]`: whitespace is skipped, and
/// each token is the longest that starts where the one before ended.
pub open spec fn tokens_from(src: Seq<char>, pos: int, acc: Seq<Token>) -> Seq<Token>
    decreases src.len() - pos,
{
    if pos < 0 || pos >= src.len() {
        acc
    } else if whitespace(src[pos]) {
        tokens_from(src, pos + 1, acc)
    } else {
        proof {
            lemma_lexeme_fits(src, pos);
        }
        tokens_from(src, pos + lexeme_len(src, pos), acc.push(token_at(src, pos)))
    }
}

/// The tokens of a source text. Every text has tokens: a character that
/// fits nowhere becomes an `Unknown` token of its own.
pub open spec fn tokens(src: Seq<char>) -> Seq<Token> {
    tokens_from(src, 0, Seq::empty())
}

/// Every token covers at least one character of `src`, and the tokens
/// follow one another without overlap.
pub open spec fn well_placed(src: Seq<char>, toks: Seq<Token>) -> bool {
    &&& forall|i: int| 0 <= i < toks.len() ==> (#[trigger] toks[i]).start < toks[i].end <= src.len()
    &&& forall|i: int, j: int|
        0 <= i < j < toks.len() ==> (#[trigger] toks[i]).end <= (#[trigger] toks[j]).start
}

/// The end of the name that starts at `pos`.
fn scan_name(src: &Vec<char>, pos: usize) -> (end: usize)
    requires
        pos < src.len(),
    ensures
        end == pos + 1 + name_run(src@, pos + 1),
        pos < end <= src.len(),
{
    let mut end: usize = pos + 1;
    while end < src.len() && is_name_part(src[end])
        invariant
            pos < end <= src.len(),
            pos + 1 + name_run(src@, pos + 1) == end + name_run(src@, end as int),
        decreases src.len() - end,
    {
        end += 1;
    }
    end
}

/// The end of the number that starts at `pos`, and its value if that fits
/// 32 bits.
fn scan_number(src: &Vec<char>, pos: usize) -> (r: (usize, Option<i32>))
    requires
        pos < src.len(),
        digit(src@[pos as int]),
    ensures
        r.0 == pos + 1 + digit_run(src@, pos + 1),
        pos < r.0 <= src.len(),
        r.1 == if digits_value(src@.subrange(pos as int, r.0 as int)) <= i32::MAX {
            Some(digits_value(src@.subrange(pos as int, r.0 as int)) as i32)
        } else {
            None::<i32>
        },
{
    let mut end: usize = pos;
    let mut value: u64 = 0;
    let mut fits: bool = true;
    assert(src@.subrange(pos as int, pos as int) =~= Seq::<char>::empty());
    while end < src.len() && is_digit(src[end])
        invariant
            pos <= end <= src.len(),
            end == pos ==> digit(src@[pos as int]),
            digit_run(src@, pos as int) == (end - pos) + digit_run(src@, end as int),
            fits ==> value == digits_value(src@.subrange(pos as int, end as int)) && value
                <= i32::MAX,
            !fits ==> digits_value(src@.subrange(pos as int, end as int)) > i32::MAX,
        decreases src.len() - end,
    {
        let d: u64 = (src[end] as u32 - 48) as u64;
        proof {
            let before = src@.subrange(pos as int, end as int);
            let after = src@.subrange(pos as int, end + 1);
            assert(after.drop_last() =~= before);
            assert(after.last() == src@[end as int]);
            assert(digits_value(after) == digits_value(before) * 10 + digit_value(src@[end as int]));
        }
        if fits {
            value = value * 10 + d;
            if value > 2147483647 {
                fits = false;
            }
        }
        end += 1;
    }
    if fits {
        (end, Some(value as i32))
    } else {
        (end, None)
    }
}

/// The kind of a one-character token that is neither a name nor a number.
fn symbol(c: char) -> (kind: TokenKind)
    ensures
        kind == symbol_kind(c),
{
    if c == '(' {
        TokenKind::OpenParen
    } else if c == ')' {
        TokenKind::CloseParen
    } else if c == '{' {
        TokenKind::OpenBrace
    } else if c == '}' {
        TokenKind::CloseBrace
    } else if c == ':' {
        TokenKind::Colon
    } else if c == ',' {
        TokenKind::Comma
    } else if c == ';' {
        TokenKind::Semicolon
    } else if c == '=' {
        TokenKind::Assign
    } else if c == '+' {
        TokenKind::Plus
    } else if c == '-' {
        TokenKind::Minus
    } else if c == '*' {
        TokenKind::Star
    } else if c == '/' {
        TokenKind::Slash
    } else {
        TokenKind::Unknown
    }
}

/// The token that starts at `pos`.
fn next_token(src: &Vec<char>, pos: usize) -> (t: Token)
    requires
        pos < src.len(),
    ensures
        t == token_at(src@, pos as int),
        t.start == pos,
        t.end == pos + lexeme_len(src@, pos as int),
        pos < t.end <= src.len(),
{
    let c = src[pos];
    if is_name_start(c) {
        let end = scan_name(src, pos);
        let ghost text = src@.subrange(pos as int, end as int);
        let kind = if end - pos == 2 && src[pos + 1] == 'n' && c == 'f' {
            assert(text =~= keyword_fn());
            TokenKind::Fn
        } else if end - pos == 3 && c == 'l' && src[pos + 1] == 'e' && src[pos + 2] == 't' {
            assert(text =~= keyword_let());
            TokenKind::Let
        } else {
            assert(text != keyword_fn()) by {
                if text == keyword_fn() {
                    assert(text.len() == 2);
                    assert(text[0] == 'f' && text[1] == 'n');
                }
            }
            assert(text != keyword_let()) by {
                if text == keyword_let() {
                    assert(text.len() == 3);
                    assert(text[0] == 'l' && text[1] == 'e' && text[2] == 't');
                }
            }
            TokenKind::Name
        };
        Token { kind, start: pos, end }
    } else if is_digit(c) {
        let (end, value) = scan_number(src, pos);
        let kind = match value {
            Some(v) => TokenKind::Number(v),
            None => TokenKind::Oversized,
        };
        Token { kind, start: pos, end }
    } else if (c == '+' || c == '-') && pos + 1 < src.len() && src[pos + 1] == c {
        let kind = if c == '+' {
            TokenKind::Increment
        } else {
            TokenKind::Decrement
        };
        Token { kind, start: pos, end: pos + 2 }
    } else {
        Token { kind: symbol(c), start: pos, end: pos + 1 }
    }
}

/// Splits a source text into its tokens.
pub fn lex(src: &Vec<char>) -> (toks: Vec<Token>)
    ensures
        toks@ == tokens(src@),
        well_placed(src@, toks@),
{
    let mut toks: Vec<Token> = Vec::new();
    let mut pos: usize = 0;
    while pos < src.len()
        invariant
            pos <= src.len(),
            tokens(src@) == tokens_from(src@, pos as int, toks@),
            well_placed(src@, toks@),
            forall|i: int| 0 <= i < toks.len() ==> (#[trigger] toks[i]).end <= pos,
        decreases src.len() - pos,
    {
        if is_whitespace(src[pos]) {
            pos += 1;
        } else {
            let t = next_token(src, pos);
            toks.push(t);
            pos = t.end;
        }
    }
    toks
}

} // verus!
