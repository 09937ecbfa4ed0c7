//! Theorems about text: numerals read back as their numbers, rendering
//! fails in one way only, and everything the grammar can write renders.

use crate::ast::{
    ExprModel, FunctionModel, VarModel, declarations_rendered, statements_rendered,
};
use crate::error::RuntimeError;
use crate::lexer::{
    Token, TokenKind, digit_run, lexeme_kind, lexeme_len, token_at, tokens, tokens_from,
};
use crate::text::{all_digits, decimal_digits, digit, digits_value};
use vstd::prelude::*;

verus! {

/// Reading back the numeral of a number gives the number: `decimal_digits`
/// yields only digits, and `digits_value` is its inverse.
pub proof fn lemma_decimal_round_trip(n: nat)
    ensures
        all_digits(decimal_digits(n)),
        digits_value(decimal_digits(n)) == n,
    decreases n,
{
    if n < 10 {
        let s = decimal_digits(n);
        assert(s.drop_last() =~= Seq::<char>::empty());
        assert(digits_value(s.drop_last()) == 0);
    } else {
        lemma_decimal_round_trip(n / 10);
        let s = decimal_digits(n);
        assert(s.drop_last() =~= decimal_digits(n / 10));
    }
}

/// A run of digits that reaches the end of the text covers the rest of it.
proof fn lemma_digit_run_to_end(s: Seq<char>, from: int)
    requires
        all_digits(s),
        0 <= from <= s.len(),
    ensures
        digit_run(s, from) == s.len() - from,
    decreases s.len() - from,
{
    if from < s.len() {
        lemma_digit_run_to_end(s, from + 1);
    }
}

/// A numeral has at least one digit and no more digits than its number
/// plus one.
proof fn lemma_decimal_length(n: nat)
    ensures
        1 <= decimal_digits(n).len() <= n + 1,
    decreases n,
{
    if n >= 10 {
        lemma_decimal_length(n / 10);
    }
}

/// What the renderer writes for a number, the lexer reads back as that
/// number: the numeral of a value that fits 32 bits is a single token, the
/// literal of that value, covering the whole numeral.
pub proof fn lemma_numeral_lexes(n: nat)
    requires
        n <= i32::MAX,
    ensures
        tokens(decimal_digits(n)) == seq![
            Token {
                kind: TokenKind::Number(n as i32),
                start: 0,
                end: decimal_digits(n).len() as usize,
            },
        ],
{
    let s = decimal_digits(n);
    lemma_decimal_round_trip(n);
    lemma_decimal_length(n);
    lemma_digit_run_to_end(s, 1);
    assert(digit(s[0]));
    assert(lexeme_len(s, 0) == s.len());
    assert(s.subrange(0, s.len() as int) =~= s);
    assert(lexeme_kind(s, 0, s.len() as int) == TokenKind::Number(n as i32));
    let t = token_at(s, 0);
    assert(tokens_from(s, s.len() as int, Seq::<Token>::empty().push(t)) == Seq::<Token>::empty().push(t));
    assert(tokens(s) == Seq::<Token>::empty().push(t));
    assert(tokens(s) =~= seq![t]);
}

/// Rendering fails in one way only: on an operator it cannot show.
pub proof fn lemma_render_error(e: ExprModel)
    ensures
        e.rendered() matches Err(x) ==> x == RuntimeError::UnsupportedOperator,
    decreases e,
{
    match e {
        ExprModel::Literal(_) => {},
        ExprModel::Reference(_) => {},
        ExprModel::Unary { child, op } => {
            lemma_render_error(*child);
        },
        ExprModel::Binary { lhs, op, rhs } => {
            lemma_render_error(*lhs);
            lemma_render_error(*rhs);
        },
    }
}

/// `e` is built from what the grammar can write: its prefix operators are
/// signs, and it holds no complement.
pub open spec fn writable(e: ExprModel) -> bool
    decreases e,
{
    match e {
        ExprModel::Literal(_) => true,
        ExprModel::Reference(_) => true,
        ExprModel::Unary { child, op } => (op is Add || op is Sub) && writable(*child),
        ExprModel::Binary { lhs, op, rhs } => !(op is Comp) && writable(*lhs) && writable(*rhs),
    }
}

/// Every declaration and statement of `f` is writable.
pub open spec fn writable_function(f: FunctionModel) -> bool {
    &&& forall|k: int| 0 <= k < f.vars.len() ==> writable(#[trigger] f.vars[k].expr)
    &&& forall|k: int| 0 <= k < f.exprs.len() ==> writable(#[trigger] f.exprs[k])
}

/// A writable expression has a canonical text.
pub proof fn lemma_writable_renders(e: ExprModel)
    requires
        writable(e),
    ensures
        e.rendered() is Ok,
    decreases e,
{
    match e {
        ExprModel::Literal(_) => {},
        ExprModel::Reference(_) => {},
        ExprModel::Unary { child, op } => {
            lemma_writable_renders(*child);
        },
        ExprModel::Binary { lhs, op, rhs } => {
            lemma_writable_renders(*lhs);
            lemma_writable_renders(*rhs);
        },
    }
}

/// Declarations with writable initializers have a text.
proof fn lemma_declarations_render(vars: Seq<VarModel>, from: int, shown: Seq<char>)
    requires
        0 <= from,
        forall|k: int| 0 <= k < vars.len() ==> writable(#[trigger] vars[k].expr),
    ensures
        declarations_rendered(vars, from, shown) is Ok,
    decreases vars.len() - from,
{
    if from < vars.len() {
        assert(writable(vars[from].expr));
        match vars[from].expr {
            ExprModel::Unary { child, op } => {
                lemma_writable_renders(*child);
            },
            ExprModel::Binary { lhs, op, rhs } => {
                lemma_writable_renders(*lhs);
                lemma_writable_renders(*rhs);
            },
            _ => {},
        }
        let t = vars[from].rendered().unwrap();
        lemma_declarations_render(vars, from + 1, shown + seq![' '] + t + seq![';']);
    }
}

/// Writable statements have a text.
proof fn lemma_statements_render(exprs: Seq<ExprModel>, from: int, shown: Seq<char>)
    requires
        0 <= from,
        forall|k: int| 0 <= k < exprs.len() ==> writable(#[trigger] exprs[k]),
    ensures
        statements_rendered(exprs, from, shown) is Ok,
    decreases exprs.len() - from,
{
    if from < exprs.len() {
        lemma_writable_renders(exprs[from]);
        let t = exprs[from].rendered().unwrap();
        lemma_statements_render(exprs, from + 1, shown + seq![' '] + t + seq![';']);
    }
}

/// A function whose declarations and statements are writable has a
/// canonical text.
pub proof fn lemma_writable_function_renders(f: FunctionModel)
    requires
        writable_function(f),
    ensures
        f.rendered() is Ok,
{
    lemma_declarations_render(f.vars, 0, f.head());
    let declared = declarations_rendered(f.vars, 0, f.head()).unwrap();
    lemma_statements_render(f.exprs, 0, declared);
}

} // verus!
