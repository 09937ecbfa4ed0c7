//! Theorems about parsing: the entry function is there, it is the only one
//! of its name and it comes first, wherever it stood in the source; parsing
//! is a function of the text; and whatever parses has a canonical text.

use crate::ast::{ExprModel, Function, FunctionModel, VarModel, views};
use crate::error::ParseError;
use crate::laws::rendering::{lemma_writable_function_renders, writable, writable_function};
use crate::lexer::{Token, TokenKind, tokens};
use crate::parser::{
    body, chain, declaration, declares_entry, declares_entry_at, entry_first, entry_index,
    expression, function, functions, has_entry, infix_of, is_entry, kind_at, mutation, operand,
    parameter_list, parameters, parsed_as, postfix_of, primary, program, sign_of, statement,
    text_at, typed,
};
use vstd::prelude::*;

verus! {

/// None of the tokens `from..to` is the keyword `fn`.
pub open spec fn keyword_free(toks: Seq<Token>, from: int, to: int) -> bool {
    forall|k: int| from <= k < to ==> #[trigger] kind_at(toks, k) != Some(TokenKind::Fn)
}

/// At most one function of `fns` is named `main`.
pub open spec fn single_entry(fns: Seq<FunctionModel>) -> bool {
    forall|a: int, b: int|
        0 <= a < b < fns.len() ==> !(is_entry(#[trigger] fns[a]) && is_entry(#[trigger] fns[b]))
}

/// `fns` starts with a function named `main` and holds no other of that
/// name.
pub open spec fn entry_leads(fns: Seq<FunctionModel>) -> bool {
    &&& fns.len() > 0
    &&& is_entry(fns[0])
    &&& forall|k: int| 1 <= k < fns.len() ==> !is_entry(#[trigger] fns[k])
}

/// The rest of an expression holds no `fn`.
proof fn lemma_chain_keyword_free(src: Seq<char>, toks: Seq<Token>, i: int, left: ExprModel)
    requires
        0 <= i <= toks.len(),
    ensures
        chain(src, toks, i, left) matches Ok((_, j)) ==> i <= j <= toks.len() && keyword_free(
            toks,
            i,
            j,
        ),
    decreases toks.len() - i,
{
    match infix_of(kind_at(toks, i)) {
        Some(op) => match operand(src, toks, i + 1) {
            Ok((right, j)) => {
                lemma_chain_keyword_free(
                    src,
                    toks,
                    j,
                    ExprModel::Binary { lhs: Box::new(left), op, rhs: Box::new(right) },
                );
            },
            Err(_) => {},
        },
        None => {},
    }
}

/// An expression that parses holds no `fn`.
proof fn lemma_expression_keyword_free(src: Seq<char>, toks: Seq<Token>, i: int)
    requires
        0 <= i,
    ensures
        expression(src, toks, i) matches Ok((_, j)) ==> i < j <= toks.len() && keyword_free(
            toks,
            i,
            j,
        ),
{
    match operand(src, toks, i) {
        Ok((first, j)) => {
            lemma_chain_keyword_free(src, toks, j, first);
        },
        Err(_) => {},
    }
}

/// A body that parses holds no `fn`.
proof fn lemma_body_keyword_free(
    src: Seq<char>,
    toks: Seq<Token>,
    i: int,
    vars: Seq<VarModel>,
    exprs: Seq<ExprModel>,
)
    requires
        0 <= i,
    ensures
        body(src, toks, i, vars, exprs) matches Ok((_, j)) ==> i < j <= toks.len() && keyword_free(
            toks,
            i,
            j,
        ),
    decreases toks.len() - i,
{
    match kind_at(toks, i) {
        None => {},
        Some(TokenKind::CloseBrace) => {},
        Some(TokenKind::Let) => match declaration(src, toks, i) {
            Ok((v, j)) => {
                lemma_expression_keyword_free(src, toks, i + 3);
                lemma_body_keyword_free(src, toks, j, vars.push(v), exprs);
            },
            Err(_) => {},
        },
        Some(_) => match statement(src, toks, i) {
            Ok((e, j)) => {
                lemma_expression_keyword_free(src, toks, i);
                lemma_body_keyword_free(src, toks, j, vars, exprs.push(e));
            },
            Err(_) => {},
        },
    }
}

/// A parameter list that parses holds no `fn`.
proof fn lemma_parameters_keyword_free(
    src: Seq<char>,
    toks: Seq<Token>,
    i: int,
    shown: Seq<char>,
)
    requires
        0 <= i,
    ensures
        parameters(src, toks, i, shown) matches Ok((_, j)) ==> i < j <= toks.len() && keyword_free(
            toks,
            i,
            j,
        ),
    decreases toks.len() - i,
{
    if kind_at(toks, i) == Some(TokenKind::Name) && kind_at(toks, i + 1) == Some(TokenKind::Colon)
        && kind_at(toks, i + 2) == Some(TokenKind::Name) && kind_at(toks, i + 3) == Some(
        TokenKind::Comma,
    ) {
        let all = shown + typed(text_at(src, toks, i), text_at(src, toks, i + 2));
        lemma_parameters_keyword_free(src, toks, i + 4, all + seq![',', ' ']);
    }
}

/// A function that parses starts with `fn` and its name, and holds no
/// other `fn`.
proof fn lemma_function_keyword_free(src: Seq<char>, toks: Seq<Token>, i: int)
    requires
        0 <= i,
    ensures
        function(src, toks, i) matches Ok((f, j)) ==> {
            &&& i < j <= toks.len()
            &&& kind_at(toks, i) == Some(TokenKind::Fn)
            &&& kind_at(toks, i + 1) == Some(TokenKind::Name)
            &&& f.name == text_at(src, toks, i + 1)
            &&& keyword_free(toks, i + 1, j)
        },
{
    if kind_at(toks, i + 3) != Some(TokenKind::CloseParen) {
        lemma_parameters_keyword_free(src, toks, i + 3, Seq::empty());
    }
    match parameter_list(src, toks, i + 3) {
        Ok((_, j)) => {
            lemma_body_keyword_free(src, toks, j + 1, Seq::empty(), Seq::empty());
        },
        Err(_) => {},
    }
}

/// Parsing from token `i` on keeps the functions already parsed, adds a
/// function named `main` for each place from `i` on where the tokens
/// declare one, and never adds a second.
proof fn lemma_functions_entries(src: Seq<char>, toks: Seq<Token>, i: int, acc: Seq<FunctionModel>)
    requires
        0 <= i,
    ensures
        functions(src, toks, i, acc) matches Ok(fns) ==> {
            &&& acc.len() <= fns.len()
            &&& forall|k: int| 0 <= k < acc.len() ==> fns[k] == acc[k]
            &&& forall|t: int|
                i <= t < toks.len() && #[trigger] declares_entry_at(src, toks, t) ==> has_entry(fns)
            &&& single_entry(acc) ==> single_entry(fns)
        },
    decreases toks.len() - i,
{
    if i < toks.len() && !(declares_entry_at(src, toks, i) && has_entry(acc)) {
        lemma_function_keyword_free(src, toks, i);
        match function(src, toks, i) {
            Ok((f, j)) => {
                let more = acc.push(f);
                lemma_functions_entries(src, toks, j, more);
                match functions(src, toks, j, more) {
                    Ok(fns) => {
                        assert(fns[acc.len() as int] == more[acc.len() as int]);
                        assert forall|k: int| 0 <= k < acc.len() implies fns[k] == acc[k] by {
                            assert(fns[k] == more[k]);
                        }
                        assert forall|t: int|
                            i <= t < toks.len() && #[trigger] declares_entry_at(
                                src,
                                toks,
                                t,
                            ) implies has_entry(fns) by {
                            if t < j {
                                assert(kind_at(toks, t) == Some(TokenKind::Fn));
                                assert(t == i);
                                assert(is_entry(fns[acc.len() as int]));
                            }
                        }
                        if single_entry(acc) {
                            assert forall|a: int, b: int| 0 <= a < b < more.len() implies !(
                            is_entry(#[trigger] more[a]) && is_entry(#[trigger] more[b])) by {
                                if b == acc.len() && is_entry(f) {
                                    assert(declares_entry_at(src, toks, i));
                                    assert(!has_entry(acc));
                                    assert(more[a] == acc[a]);
                                } else if b < acc.len() {
                                    assert(more[a] == acc[a] && more[b] == acc[b]);
                                }
                            }
                        }
                    },
                    Err(_) => {},
                }
            },
            Err(_) => {},
        }
    }
}

/// `entry_index` finds the first function named `main` at or after `from`.
proof fn lemma_entry_index(fns: Seq<FunctionModel>, from: int)
    requires
        0 <= from <= fns.len(),
    ensures
        from <= entry_index(fns, from) <= fns.len(),
        entry_index(fns, from) < fns.len() ==> is_entry(fns[entry_index(fns, from)]),
        forall|k: int| from <= k < entry_index(fns, from) ==> !is_entry(#[trigger] fns[k]),
    decreases fns.len() - from,
{
    if from < fns.len() && !is_entry(fns[from]) {
        lemma_entry_index(fns, from + 1);
    }
}

/// Moving the entry function to the front of a list that holds exactly one
/// gives a list that it leads.
proof fn lemma_entry_first_leads(fns: Seq<FunctionModel>)
    requires
        has_entry(fns),
        single_entry(fns),
    ensures
        entry_leads(entry_first(fns)),
{
    lemma_entry_index(fns, 0);
    let k = entry_index(fns, 0);
    let w = choose|w: int| 0 <= w < fns.len() && is_entry(#[trigger] fns[w]);
    assert(k < fns.len()) by {
        if k >= fns.len() {
            assert(!is_entry(fns[w]));
        }
    }
    let moved = entry_first(fns);
    assert(moved[0] == fns[k]);
    assert forall|t: int| 1 <= t < moved.len() implies !is_entry(#[trigger] moved[t]) by {
        let from = if t - 1 < k {
            t - 1
        } else {
            t
        };
        assert(moved[t] == fns[from]);
        if from < k {
            assert(!(is_entry(fns[from]) && is_entry(fns[k])));
        } else {
            assert(!(is_entry(fns[k]) && is_entry(fns[from])));
        }
    }
}

/// Every program that parses starts with its one function named `main`.
pub proof fn lemma_parsed_entry_leads(src: Seq<char>)
    ensures
        program(src) matches Ok(fns) ==> entry_leads(fns),
{
    let toks = tokens(src);
    if declares_entry(src, toks) {
        lemma_functions_entries(src, toks, 0, Seq::empty());
        match functions(src, toks, 0, Seq::empty()) {
            Ok(fns) => {
                let t = choose|t: int| 0 <= t < toks.len() && #[trigger] declares_entry_at(src, toks, t);
                assert(has_entry(fns));
                assert(single_entry(Seq::<FunctionModel>::empty()));
                lemma_entry_first_leads(fns);
            },
            Err(_) => {},
        }
    }
}

/// Where the entry function stands among the others makes no difference:
/// a list that holds `main` anywhere among `others` is ordered as `main`
/// followed by `others` in their own order.
pub proof fn lemma_entry_position_is_irrelevant(
    others: Seq<FunctionModel>,
    main: FunctionModel,
    at: int,
)
    requires
        is_entry(main),
        !has_entry(others),
        0 <= at <= others.len(),
    ensures
        entry_first(others.insert(at, main)) == seq![main] + others,
{
    let fns = others.insert(at, main);
    lemma_entry_index(fns, 0);
    let k = entry_index(fns, 0);
    assert(fns[at] == main);
    assert(k == at) by {
        if k < at {
            assert(fns[k] == others[k]);
            assert(is_entry(others[k]));
        }
    }
    assert(fns.remove(at) =~= others);
    assert(entry_first(fns) =~= seq![main] + others);
}

/// Parsing one text twice gives the same answer: two results that are each
/// what parsing `src` gives are both errors, and the same error, or both
/// programs with the same model.
pub proof fn lemma_reparse_agrees(
    src: Seq<char>,
    first: Result<Vec<Function>, ParseError>,
    second: Result<Vec<Function>, ParseError>,
)
    requires
        parsed_as(src, first),
        parsed_as(src, second),
    ensures
        match (first, second) {
            (Ok(a), Ok(b)) => {
                &&& views(a@) == views(b@)
                &&& a.len() == b.len()
                &&& forall|k: int| 0 <= k < a.len() ==> a[k]@.rendered() == b[k]@.rendered()
            },
            (Err(x), Err(y)) => x == y,
            _ => false,
        },
{
    match (first, second) {
        (Ok(a), Ok(b)) => {
            assert(views(a@).len() == a.len() && views(b@).len() == b.len());
            assert forall|k: int| 0 <= k < a.len() implies a[k]@.rendered() == b[k]@.rendered() by {
                assert(views(a@)[k] == a[k]@);
                assert(views(b@)[k] == b[k]@);
            }
        },
        _ => {},
    }
}

/// Every operand that parses is writable.
proof fn lemma_operand_writable(src: Seq<char>, toks: Seq<Token>, i: int)
    ensures
        operand(src, toks, i) matches Ok((e, j)) ==> writable(e) && i < j <= toks.len(),
{
    let sign = sign_of(kind_at(toks, i));
    let at = if sign is Some {
        i + 1
    } else {
        i
    };
    match primary(src, toks, at) {
        Ok((p, j)) => {
            assert(writable(p));
            assert(writable(ExprModel::Literal(1)));
            let q = match postfix_of(kind_at(toks, j)) {
                Some(op) => mutation(p, op),
                None => p,
            };
            assert(writable(q));
            match sign {
                Some(op) => {
                    assert(writable(ExprModel::Unary { child: Box::new(q), op }));
                },
                None => {},
            }
        },
        Err(_) => {},
    }
}

/// Joining operands to a writable expression keeps it writable.
proof fn lemma_chain_writable(src: Seq<char>, toks: Seq<Token>, i: int, left: ExprModel)
    requires
        0 <= i <= toks.len(),
        writable(left),
    ensures
        chain(src, toks, i, left) matches Ok((e, _)) ==> writable(e),
    decreases toks.len() - i,
{
    match infix_of(kind_at(toks, i)) {
        Some(op) => match operand(src, toks, i + 1) {
            Ok((right, j)) => {
                lemma_operand_writable(src, toks, i + 1);
                assert(writable(
                    ExprModel::Binary { lhs: Box::new(left), op, rhs: Box::new(right) },
                ));
                lemma_chain_writable(
                    src,
                    toks,
                    j,
                    ExprModel::Binary { lhs: Box::new(left), op, rhs: Box::new(right) },
                );
            },
            Err(_) => {},
        },
        None => {},
    }
}

/// Every expression that parses is writable.
proof fn lemma_expression_writable(src: Seq<char>, toks: Seq<Token>, i: int)
    requires
        0 <= i,
    ensures
        expression(src, toks, i) matches Ok((e, _)) ==> writable(e),
{
    match operand(src, toks, i) {
        Ok((first, j)) => {
            lemma_operand_writable(src, toks, i);
            lemma_chain_writable(src, toks, j, first);
        },
        Err(_) => {},
    }
}

/// A body that parses adds only writable declarations and statements.
proof fn lemma_body_writable(
    src: Seq<char>,
    toks: Seq<Token>,
    i: int,
    vars: Seq<VarModel>,
    exprs: Seq<ExprModel>,
)
    requires
        0 <= i,
        forall|k: int| 0 <= k < vars.len() ==> writable(#[trigger] vars[k].expr),
        forall|k: int| 0 <= k < exprs.len() ==> writable(#[trigger] exprs[k]),
    ensures
        body(src, toks, i, vars, exprs) matches Ok(((vs, es), _)) ==> {
            &&& forall|k: int| 0 <= k < vs.len() ==> writable(#[trigger] vs[k].expr)
            &&& forall|k: int| 0 <= k < es.len() ==> writable(#[trigger] es[k])
        },
    decreases toks.len() - i,
{
    match kind_at(toks, i) {
        None => {},
        Some(TokenKind::CloseBrace) => {},
        Some(TokenKind::Let) => match declaration(src, toks, i) {
            Ok((v, j)) => {
                lemma_expression_writable(src, toks, i + 3);
                lemma_expression_keyword_free(src, toks, i + 3);
                lemma_body_writable(src, toks, j, vars.push(v), exprs);
            },
            Err(_) => {},
        },
        Some(_) => match statement(src, toks, i) {
            Ok((e, j)) => {
                lemma_expression_writable(src, toks, i);
                lemma_expression_keyword_free(src, toks, i);
                lemma_body_writable(src, toks, j, vars, exprs.push(e));
            },
            Err(_) => {},
        },
    }
}

/// Parsing adds only functions whose members are writable.
proof fn lemma_functions_writable(src: Seq<char>, toks: Seq<Token>, i: int, acc: Seq<FunctionModel>)
    requires
        0 <= i,
        forall|k: int| 0 <= k < acc.len() ==> writable_function(#[trigger] acc[k]),
    ensures
        functions(src, toks, i, acc) matches Ok(fns) ==> forall|k: int|
            0 <= k < fns.len() ==> writable_function(#[trigger] fns[k]),
    decreases toks.len() - i,
{
    if i < toks.len() && !(declares_entry_at(src, toks, i) && has_entry(acc)) {
        lemma_function_keyword_free(src, toks, i);
        match function(src, toks, i) {
            Ok((f, j)) => {
                match parameter_list(src, toks, i + 3) {
                    Ok((_, p)) => {
                        if kind_at(toks, i + 3) != Some(TokenKind::CloseParen) {
                            lemma_parameters_keyword_free(src, toks, i + 3, Seq::empty());
                        }
                        lemma_body_writable(src, toks, p + 1, Seq::empty(), Seq::empty());
                    },
                    Err(_) => {},
                }
                assert(writable_function(f));
                lemma_functions_writable(src, toks, j, acc.push(f));
            },
            Err(_) => {},
        }
    }
}

/// Every program that parses has a canonical text: each of its functions
/// renders, and so does each of their declarations and statements.
pub proof fn lemma_parsed_program_renders(src: Seq<char>)
    ensures
        program(src) matches Ok(fns) ==> forall|k: int|
            0 <= k < fns.len() ==> writable_function(#[trigger] fns[k]) && fns[k].rendered() is Ok,
{
    let toks = tokens(src);
    if declares_entry(src, toks) {
        lemma_functions_writable(src, toks, 0, Seq::empty());
        match functions(src, toks, 0, Seq::empty()) {
            Ok(parsed) => {
                let fns = entry_first(parsed);
                lemma_entry_index(parsed, 0);
                let e = entry_index(parsed, 0);
                assert forall|k: int| 0 <= k < fns.len() implies writable_function(
                    #[trigger] fns[k],
                ) && fns[k].rendered() is Ok by {
                    if e < parsed.len() {
                        let from = if k == 0 {
                            e
                        } else if k - 1 < e {
                            k - 1
                        } else {
                            k
                        };
                        assert(fns[k] == parsed[from]);
                    }
                    lemma_writable_function_renders(fns[k]);
                }
            },
            Err(_) => {},
        }
    }
}

} // verus!
