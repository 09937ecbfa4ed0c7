//! The grammar: from tokens to an ordered list of functions with the entry
//! function first.
//!
//! ```text
//! Program    := Function+
//! Function   := "fn" Name "(" ParamList? ")" "{" Body "}"
//! ParamList  := Param ("," Param)*
//! Param      := Name ":" Name
//! Body       := (VarDecl | Stmt)*
//! VarDecl    := "let" Name "=" Expr ";"
//! Stmt       := Expr ";"
//! Expr       := Operand (BinOp Operand)*
//! Operand    := ("+" | "-")? Primary ("++" | "--")?
//! Primary    := Number | Name
//! BinOp      := "+" | "-" | "*" | "/"
//! ```
//!
//! Binary operators have one precedence and group to the left: `1 + 2 * 3`
//! is `(1 + 2) * 3`. A postfix operator binds tighter than a prefix sign:
//! `-s++` negates the incremented `s`.

use crate::ast::{Expr, ExprModel, Function, FunctionModel, Operator, Var, VarModel, views};
use crate::error::{ParseError, SyntaxKind};
use crate::laws::program::{entry_leads, lemma_parsed_entry_leads};
use crate::lexer::{Token, TokenKind, lex, tokens, well_placed};
use crate::text::{chars_of, text_of};
use vstd::prelude::*;

verus! {

/// What a grammar rule yields when it is applied at some token: the value
/// it built and the index of the first token after it, or the error.
pub type Parsed<T> = Result<(T, int), ParseError>;

/// The kind of the `i`-th token, if there is one.
pub open spec fn kind_at(toks: Seq<Token>, i: int) -> Option<TokenKind> {
    if 0 <= i < toks.len() {
        Some(toks[i].kind)
    } else {
        None
    }
}

/// The characters of the source that the `i`-th token covers.
pub open spec fn text_at(src: Seq<char>, toks: Seq<Token>, i: int) -> Seq<char>
    recommends
        0 <= i < toks.len(),
{
    src.subrange(toks[i].start as int, toks[i].end as int)
}

/// The syntax error for a rule that wanted `expected` at token `i`. An
/// unknown character or an oversized literal there is reported as such;
/// past the last token the error lies at the end of the text.
pub open spec fn fault(src: Seq<char>, toks: Seq<Token>, i: int, expected: SyntaxKind) -> ParseError {
    if 0 <= i < toks.len() {
        match toks[i].kind {
            TokenKind::Unknown => ParseError::Syntax(SyntaxKind::UnknownToken, toks[i].start),
            TokenKind::Oversized => ParseError::Syntax(SyntaxKind::LiteralTooLarge, toks[i].start),
            _ => ParseError::Syntax(expected, toks[i].start),
        }
    } else {
        ParseError::Syntax(expected, src.len() as usize)
    }
}

/// `Primary`: a number is a literal, a name is a reference.
pub open spec fn primary(src: Seq<char>, toks: Seq<Token>, i: int) -> Parsed<ExprModel> {
    match kind_at(toks, i) {
        Some(TokenKind::Number(n)) => Ok((ExprModel::Literal(n), i + 1)),
        Some(TokenKind::Name) => Ok((ExprModel::Reference(text_at(src, toks, i)), i + 1)),
        _ => Err(fault(src, toks, i, SyntaxKind::ExpectedOperand)),
    }
}

/// The increment or decrement of `target`. Its right operand is the
/// literal one, which nothing reads.
pub open spec fn mutation(target: ExprModel, op: Operator) -> ExprModel {
    ExprModel::Binary { lhs: Box::new(target), op, rhs: Box::new(ExprModel::Literal(1)) }
}

/// The prefix sign that a token stands for.
pub open spec fn sign_of(kind: Option<TokenKind>) -> Option<Operator> {
    match kind {
        Some(TokenKind::Plus) => Some(Operator::Add),
        Some(TokenKind::Minus) => Some(Operator::Sub),
        _ => None,
    }
}

/// The postfix operator that a token stands for.
pub open spec fn postfix_of(kind: Option<TokenKind>) -> Option<Operator> {
    match kind {
        Some(TokenKind::Increment) => Some(Operator::Incr),
        Some(TokenKind::Decrement) => Some(Operator::Decr),
        _ => None,
    }
}

/// The binary operator that a token stands for.
pub open spec fn infix_of(kind: Option<TokenKind>) -> Option<Operator> {
    match kind {
        Some(TokenKind::Plus) => Some(Operator::Add),
        Some(TokenKind::Minus) => Some(Operator::Sub),
        Some(TokenKind::Star) => Some(Operator::Mul),
        Some(TokenKind::Slash) => Some(Operator::Div),
        _ => None,
    }
}

/// `Operand`: an optional sign, a primary, an optional `++` or `--`. The
/// postfix operator applies to the primary and the sign to the result.
pub open spec fn operand(src: Seq<char>, toks: Seq<Token>, i: int) -> Parsed<ExprModel> {
    let sign = sign_of(kind_at(toks, i));
    let at = if sign is Some {
        i + 1
    } else {
        i
    };
    match primary(src, toks, at) {
        Ok((p, j)) => {
            let (q, k) = match postfix_of(kind_at(toks, j)) {
                Some(op) => (mutation(p, op), j + 1),
                None => (p, j),
            };
            match sign {
                Some(op) => Ok((ExprModel::Unary { child: Box::new(q), op }, k)),
                None => Ok((q, k)),
            }
        },
        Err(e) => Err(e),
    }
}

/// The rest of an expression whose operands so far have been combined into
/// `left`: while a binary operator follows, the operand after it is joined
/// to `left` on the right.
pub open spec fn chain(src: Seq<char>, toks: Seq<Token>, i: int, left: ExprModel) -> Parsed<
    ExprModel,
>
    decreases toks.len() - i,
{
    match infix_of(kind_at(toks, i)) {
        Some(op) => match operand(src, toks, i + 1) {
            Ok((right, j)) => chain(
                src,
                toks,
                j,
                ExprModel::Binary { lhs: Box::new(left), op, rhs: Box::new(right) },
            ),
            Err(e) => Err(e),
        },
        None => Ok((left, i)),
    }
}

/// `Expr`: operands joined by binary operators, grouped to the left.
pub open spec fn expression(src: Seq<char>, toks: Seq<Token>, i: int) -> Parsed<ExprModel> {
    match operand(src, toks, i) {
        Ok((first, j)) => chain(src, toks, j, first),
        Err(e) => Err(e),
    }
}

/// The rest of an expression ends within the tokens, at or after the token
/// it started from.
pub proof fn lemma_chain_advances(src: Seq<char>, toks: Seq<Token>, i: int, left: ExprModel)
    requires
        0 <= i <= toks.len(),
    ensures
        chain(src, toks, i, left) matches Ok((_, j)) ==> i <= j <= toks.len(),
    decreases toks.len() - i,
{
    match infix_of(kind_at(toks, i)) {
        Some(op) => match operand(src, toks, i + 1) {
            Ok((right, j)) => {
                lemma_chain_advances(
                    src,
                    toks,
                    j,
                    ExprModel::Binary { lhs: Box::new(left), op, rhs: Box::new(right) },
                );
            },
            Err(_) => {},
        },
        None => {},
    }
}

/// An expression that parses covers at least one token and ends within the
/// tokens.
pub proof fn lemma_expression_advances(src: Seq<char>, toks: Seq<Token>, i: int)
    requires
        0 <= i,
    ensures
        expression(src, toks, i) matches Ok((_, j)) ==> i < j <= toks.len(),
{
    match operand(src, toks, i) {
        Ok((first, j)) => {
            lemma_chain_advances(src, toks, j, first);
        },
        Err(_) => {},
    }
}

/// `VarDecl`, applied at a `let` token: a name, `=`, an expression, `;`.
pub open spec fn declaration(src: Seq<char>, toks: Seq<Token>, i: int) -> Parsed<VarModel> {
    if kind_at(toks, i + 1) != Some(TokenKind::Name) {
        Err(fault(src, toks, i + 1, SyntaxKind::ExpectedName))
    } else if kind_at(toks, i + 2) != Some(TokenKind::Assign) {
        Err(fault(src, toks, i + 2, SyntaxKind::ExpectedAssign))
    } else {
        match expression(src, toks, i + 3) {
            Ok((e, j)) => if kind_at(toks, j) == Some(TokenKind::Semicolon) {
                Ok((VarModel { name: text_at(src, toks, i + 1), expr: e }, j + 1))
            } else {
                Err(fault(src, toks, j, SyntaxKind::ExpectedSemicolon))
            },
            Err(e) => Err(e),
        }
    }
}

/// `Stmt`: an expression, then `;`.
pub open spec fn statement(src: Seq<char>, toks: Seq<Token>, i: int) -> Parsed<ExprModel> {
    match expression(src, toks, i) {
        Ok((e, j)) => if kind_at(toks, j) == Some(TokenKind::Semicolon) {
            Ok((e, j + 1))
        } else {
            Err(fault(src, toks, j, SyntaxKind::ExpectedSemicolon))
        },
        Err(e) => Err(e),
    }
}

/// The rest of a `Body`, up to and with its closing brace, after the
/// declarations `vars` and the statements `exprs`. An item that starts with
/// `let` is a declaration and any other a statement; each joins its own
/// list, so the two lists keep source order but not how they interleaved.
pub open spec fn body(
    src: Seq<char>,
    toks: Seq<Token>,
    i: int,
    vars: Seq<VarModel>,
    exprs: Seq<ExprModel>,
) -> Parsed<(Seq<VarModel>, Seq<ExprModel>)>
    decreases toks.len() - i,
{
    if i < 0 {
        Err(fault(src, toks, i, SyntaxKind::ExpectedCloseBrace))
    } else {
        match kind_at(toks, i) {
            None => Err(fault(src, toks, i, SyntaxKind::ExpectedCloseBrace)),
            Some(TokenKind::CloseBrace) => Ok(((vars, exprs), i + 1)),
            Some(TokenKind::Let) => match declaration(src, toks, i) {
                Ok((v, j)) => {
                    proof {
                        lemma_expression_advances(src, toks, i + 3);
                    }
                    body(src, toks, j, vars.push(v), exprs)
                },
                Err(e) => Err(e),
            },
            Some(_) => match statement(src, toks, i) {
                Ok((e, j)) => {
                    proof {
                        lemma_expression_advances(src, toks, i);
                    }
                    body(src, toks, j, vars, exprs.push(e))
                },
                Err(e) => Err(e),
            },
        }
    }
}

/// One parameter as it is kept: the name, `: `, the type.
pub open spec fn typed(name: Seq<char>, ty: Seq<char>) -> Seq<char> {
    name + seq![':', ' '] + ty
}

/// The rest of a `ParamList`, up to and with the closing parenthesis,
/// applied where a parameter must start and after the parameters already
/// written into `shown`. Parameters are joined by `, `.
pub open spec fn parameters(src: Seq<char>, toks: Seq<Token>, i: int, shown: Seq<char>) -> Parsed<
    Seq<char>,
>
    decreases toks.len() - i,
{
    if i < 0 || kind_at(toks, i) != Some(TokenKind::Name) {
        Err(fault(src, toks, i, SyntaxKind::ExpectedName))
    } else if kind_at(toks, i + 1) != Some(TokenKind::Colon) {
        Err(fault(src, toks, i + 1, SyntaxKind::ExpectedColon))
    } else if kind_at(toks, i + 2) != Some(TokenKind::Name) {
        Err(fault(src, toks, i + 2, SyntaxKind::ExpectedName))
    } else {
        let all = shown + typed(text_at(src, toks, i), text_at(src, toks, i + 2));
        match kind_at(toks, i + 3) {
            Some(TokenKind::Comma) => parameters(src, toks, i + 4, all + seq![',', ' ']),
            Some(TokenKind::CloseParen) => Ok((all, i + 4)),
            _ => Err(fault(src, toks, i + 3, SyntaxKind::ExpectedCloseParen)),
        }
    }
}

/// What follows the opening parenthesis of a function: `)` at once, or
/// parameters and then `)`.
pub open spec fn parameter_list(src: Seq<char>, toks: Seq<Token>, i: int) -> Parsed<Seq<char>> {
    if kind_at(toks, i) == Some(TokenKind::CloseParen) {
        Ok((Seq::empty(), i + 1))
    } else {
        parameters(src, toks, i, Seq::empty())
    }
}

/// `Function`: `fn`, a name, the parameter list in parentheses, the body in
/// braces. Its status code is zero.
pub open spec fn function(src: Seq<char>, toks: Seq<Token>, i: int) -> Parsed<FunctionModel> {
    if kind_at(toks, i) != Some(TokenKind::Fn) {
        Err(fault(src, toks, i, SyntaxKind::ExpectedFunction))
    } else if kind_at(toks, i + 1) != Some(TokenKind::Name) {
        Err(fault(src, toks, i + 1, SyntaxKind::ExpectedName))
    } else if kind_at(toks, i + 2) != Some(TokenKind::OpenParen) {
        Err(fault(src, toks, i + 2, SyntaxKind::ExpectedOpenParen))
    } else {
        match parameter_list(src, toks, i + 3) {
            Ok((args, j)) => if kind_at(toks, j) != Some(TokenKind::OpenBrace) {
                Err(fault(src, toks, j, SyntaxKind::ExpectedOpenBrace))
            } else {
                match body(src, toks, j + 1, Seq::empty(), Seq::empty()) {
                    Ok(((vars, exprs), k)) => Ok(
                        (
                            FunctionModel {
                                name: text_at(src, toks, i + 1),
                                args,
                                vars,
                                exprs,
                                ret: 0,
                            },
                            k,
                        ),
                    ),
                    Err(e) => Err(e),
                }
            },
            Err(e) => Err(e),
        }
    }
}

/// A parameter list that parses ends within the tokens, after the token it
/// started from.
pub proof fn lemma_parameters_advance(src: Seq<char>, toks: Seq<Token>, i: int, shown: Seq<char>)
    requires
        0 <= i,
    ensures
        parameters(src, toks, i, shown) matches Ok((_, j)) ==> i < j <= toks.len(),
    decreases toks.len() - i,
{
    if kind_at(toks, i) == Some(TokenKind::Name) && kind_at(toks, i + 1) == Some(TokenKind::Colon)
        && kind_at(toks, i + 2) == Some(TokenKind::Name) && kind_at(toks, i + 3) == Some(
        TokenKind::Comma,
    ) {
        let all = shown + typed(text_at(src, toks, i), text_at(src, toks, i + 2));
        lemma_parameters_advance(src, toks, i + 4, all + seq![',', ' ']);
    }
}

/// A body that parses ends within the tokens, after the token it started
/// from.
pub proof fn lemma_body_advances(
    src: Seq<char>,
    toks: Seq<Token>,
    i: int,
    vars: Seq<VarModel>,
    exprs: Seq<ExprModel>,
)
    requires
        0 <= i,
    ensures
        body(src, toks, i, vars, exprs) matches Ok((_, j)) ==> i < j <= toks.len(),
    decreases toks.len() - i,
{
    match kind_at(toks, i) {
        None => {},
        Some(TokenKind::CloseBrace) => {},
        Some(TokenKind::Let) => match declaration(src, toks, i) {
            Ok((v, j)) => {
                lemma_expression_advances(src, toks, i + 3);
                lemma_body_advances(src, toks, j, vars.push(v), exprs);
            },
            Err(_) => {},
        },
        Some(_) => match statement(src, toks, i) {
            Ok((e, j)) => {
                lemma_expression_advances(src, toks, i);
                lemma_body_advances(src, toks, j, vars, exprs.push(e));
            },
            Err(_) => {},
        },
    }
}

/// A function that parses ends within the tokens, after the token it
/// started from.
pub proof fn lemma_function_advances(src: Seq<char>, toks: Seq<Token>, i: int)
    requires
        0 <= i,
    ensures
        function(src, toks, i) matches Ok((_, j)) ==> i < j <= toks.len(),
{
    if kind_at(toks, i + 3) != Some(TokenKind::CloseParen) {
        lemma_parameters_advance(src, toks, i + 3, Seq::empty());
    }
    match parameter_list(src, toks, i + 3) {
        Ok((_, j)) => {
            lemma_body_advances(src, toks, j + 1, Seq::empty(), Seq::empty());
        },
        Err(_) => {},
    }
}

/// The name of the entry function: `main`.
pub open spec fn entry_name() -> Seq<char> {
    seq!['m', 'a', 'i', 'n']
}

/// `f` is named `main`.
pub open spec fn is_entry(f: FunctionModel) -> bool {
    f.name == entry_name()
}

/// Some function of `fns` is named `main`.
pub open spec fn has_entry(fns: Seq<FunctionModel>) -> bool {
    exists|k: int| 0 <= k < fns.len() && is_entry(#[trigger] fns[k])
}

/// Token `i` is `fn` and the token after it is the name `main`.
pub open spec fn declares_entry_at(src: Seq<char>, toks: Seq<Token>, i: int) -> bool {
    &&& kind_at(toks, i) == Some(TokenKind::Fn)
    &&& kind_at(toks, i + 1) == Some(TokenKind::Name)
    &&& text_at(src, toks, i + 1) == entry_name()
}

/// Somewhere among the tokens, `fn` is followed by the name `main`.
pub open spec fn declares_entry(src: Seq<char>, toks: Seq<Token>) -> bool {
    exists|i: int| 0 <= i < toks.len() && #[trigger] declares_entry_at(src, toks, i)
}

/// `Function+`, applied at token `i` after the functions `acc`: functions
/// follow one another to the last token. A second function named `main` is
/// an error at its name.
pub open spec fn functions(src: Seq<char>, toks: Seq<Token>, i: int, acc: Seq<FunctionModel>) -> Result<
    Seq<FunctionModel>,
    ParseError,
>
    decreases toks.len() - i,
{
    if i < 0 || i >= toks.len() {
        Ok(acc)
    } else if declares_entry_at(src, toks, i) && has_entry(acc) {
        Err(ParseError::Syntax(SyntaxKind::DuplicateEntryPoint, toks[i + 1].start))
    } else {
        match function(src, toks, i) {
            Ok((f, j)) => {
                proof {
                    lemma_function_advances(src, toks, i);
                }
                functions(src, toks, j, acc.push(f))
            },
            Err(e) => Err(e),
        }
    }
}

/// The index of the first function named `main` at or after `from`, or the
/// length of `fns` if there is none.
pub open spec fn entry_index(fns: Seq<FunctionModel>, from: int) -> int
    decreases fns.len() - from,
{
    if from < 0 || from >= fns.len() {
        fns.len() as int
    } else if is_entry(fns[from]) {
        from
    } else {
        entry_index(fns, from + 1)
    }
}

/// `fns` with its first function named `main` moved to the front and every
/// other function in its old order; `fns` itself if none is named `main`.
pub open spec fn entry_first(fns: Seq<FunctionModel>) -> Seq<FunctionModel> {
    let k = entry_index(fns, 0);
    if k < fns.len() {
        fns.remove(k).insert(0, fns[k])
    } else {
        fns
    }
}

/// What a source text parses to.
///
/// The text is split into tokens. If nowhere among them `fn` is followed by
/// the name `main`, the text has no entry function, whatever else is wrong
/// with it. Otherwise the tokens must be functions from the first to the
/// last, and the first syntax error in source order is reported. The
/// functions are listed with `main` first and the others in source order.
pub open spec fn program(src: Seq<char>) -> Result<Seq<FunctionModel>, ParseError> {
    let toks = tokens(src);
    if !declares_entry(src, toks) {
        Err(ParseError::MissingEntryPoint)
    } else {
        match functions(src, toks, 0, Seq::empty()) {
            Ok(fns) => Ok(entry_first(fns)),
            Err(e) => Err(e),
        }
    }
}

/// What a parse result says, in terms of models: the models of its
/// functions, or its error.
pub open spec fn modeled(r: Result<Vec<Function>, ParseError>) -> Result<
    Seq<FunctionModel>,
    ParseError,
> {
    match r {
        Ok(fns) => Ok(views(fns@)),
        Err(e) => Err(e),
    }
}

/// `r` is what parsing `src` gives: the functions that [`program`] lists,
/// or its error.
pub open spec fn parsed_as(src: Seq<char>, r: Result<Vec<Function>, ParseError>) -> bool {
    program(src) == modeled(r)
}

/// An executable result says what the grammar rule says: the same error,
/// or a value with that model and the same next token.
spec fn agrees<T: View>(r: Result<(T, usize), ParseError>, rule: Parsed<T::V>) -> bool {
    match r {
        Ok((t, j)) => rule == Ok::<(T::V, int), ParseError>((t@, j as int)),
        Err(e) => rule == Err::<(T::V, int), ParseError>(e),
    }
}

/// The kind of the `i`-th token, if there is one.
fn kind(toks: &Vec<Token>, i: usize) -> (k: Option<TokenKind>)
    ensures
        k == kind_at(toks@, i as int),
{
    if i < toks.len() {
        Some(toks[i].kind)
    } else {
        None
    }
}

/// The syntax error for a rule that wanted `expected` at token `i`.
fn fail(src: &Vec<char>, toks: &Vec<Token>, i: usize, expected: SyntaxKind) -> (e: ParseError)
    ensures
        e == fault(src@, toks@, i as int, expected),
{
    if i < toks.len() {
        match toks[i].kind {
            TokenKind::Unknown => ParseError::Syntax(SyntaxKind::UnknownToken, toks[i].start),
            TokenKind::Oversized => ParseError::Syntax(SyntaxKind::LiteralTooLarge, toks[i].start),
            _ => ParseError::Syntax(expected, toks[i].start),
        }
    } else {
        ParseError::Syntax(expected, src.len())
    }
}

/// The characters of the `i`-th token, as text.
fn text(src: &Vec<char>, toks: &Vec<Token>, i: usize) -> (s: String)
    requires
        well_placed(src@, toks@),
        i < toks.len(),
    ensures
        s@ == text_at(src@, toks@, i as int),
{
    text_of(src, toks[i].start, toks[i].end)
}

/// Applies `Primary` at token `i`.
fn parse_primary(src: &Vec<char>, toks: &Vec<Token>, i: usize) -> (r: Result<
    (Expr, usize),
    ParseError,
>)
    requires
        well_placed(src@, toks@),
    ensures
        agrees(r, primary(src@, toks@, i as int)),
        r matches Ok((_, j)) ==> i < j <= toks.len(),
{
    match kind(toks, i) {
        Some(TokenKind::Number(n)) => Ok((Expr::Literal(n), i + 1)),
        Some(TokenKind::Name) => Ok((Expr::Reference(text(src, toks, i)), i + 1)),
        _ => Err(fail(src, toks, i, SyntaxKind::ExpectedOperand)),
    }
}

/// Applies `Operand` at token `i`.
fn parse_operand(src: &Vec<char>, toks: &Vec<Token>, i: usize) -> (r: Result<
    (Expr, usize),
    ParseError,
>)
    requires
        well_placed(src@, toks@),
    ensures
        agrees(r, operand(src@, toks@, i as int)),
        r matches Ok((_, j)) ==> i < j <= toks.len(),
{
    let sign = match kind(toks, i) {
        Some(TokenKind::Plus) => Some(Operator::Add),
        Some(TokenKind::Minus) => Some(Operator::Sub),
        _ => None,
    };
    assert(sign == sign_of(kind_at(toks@, i as int)));
    assert(sign is Some ==> i < toks.len());
    let at = if sign.is_some() {
        i + 1
    } else {
        i
    };
    match parse_primary(src, toks, at) {
        Ok((p, j)) => {
            let ghost target = p@;
            assert(Expr::Literal(1)@ == ExprModel::Literal(1));
            let (q, k) = match kind(toks, j) {
                Some(TokenKind::Increment) => (
                    Expr::Binary {
                        lhs: Box::new(p),
                        op: Operator::Incr,
                        rhs: Box::new(Expr::Literal(1)),
                    },
                    j + 1,
                ),
                Some(TokenKind::Decrement) => (
                    Expr::Binary {
                        lhs: Box::new(p),
                        op: Operator::Decr,
                        rhs: Box::new(Expr::Literal(1)),
                    },
                    j + 1,
                ),
                _ => (p, j),
            };
            assert(q@ == match postfix_of(kind_at(toks@, j as int)) {
                Some(op) => mutation(target, op),
                None => target,
            });
            match sign {
                Some(op) => Ok((Expr::Unary { child: Box::new(q), op }, k)),
                None => Ok((q, k)),
            }
        },
        Err(e) => Err(e),
    }
}

/// Applies `Expr` at token `i`.
fn parse_expression(src: &Vec<char>, toks: &Vec<Token>, i: usize) -> (r: Result<
    (Expr, usize),
    ParseError,
>)
    requires
        well_placed(src@, toks@),
    ensures
        agrees(r, expression(src@, toks@, i as int)),
        r matches Ok((_, j)) ==> i < j <= toks.len(),
{
    let (first, next) = match parse_operand(src, toks, i) {
        Ok(p) => p,
        Err(e) => {
            return Err(e);
        },
    };
    let mut left = first;
    let mut j = next;
    loop
        invariant
            well_placed(src@, toks@),
            i < j <= toks.len(),
            expression(src@, toks@, i as int) == chain(src@, toks@, j as int, left@),
        decreases toks.len() - j,
    {
        let op = match kind(toks, j) {
            Some(TokenKind::Plus) => Operator::Add,
            Some(TokenKind::Minus) => Operator::Sub,
            Some(TokenKind::Star) => Operator::Mul,
            Some(TokenKind::Slash) => Operator::Div,
            _ => {
                return Ok((left, j));
            },
        };
        match parse_operand(src, toks, j + 1) {
            Ok((right, k)) => {
                left = Expr::Binary { lhs: Box::new(left), op, rhs: Box::new(right) };
                j = k;
            },
            Err(e) => {
                return Err(e);
            },
        }
    }
}


/// Applies `VarDecl` at the `let` token `i`.
fn parse_declaration(src: &Vec<char>, toks: &Vec<Token>, i: usize) -> (r: Result<
    (Var, usize),
    ParseError,
>)
    requires
        well_placed(src@, toks@),
        i < toks.len(),
    ensures
        agrees(r, declaration(src@, toks@, i as int)),
        r matches Ok((_, j)) ==> i < j <= toks.len(),
{
    match kind(toks, i + 1) {
        Some(TokenKind::Name) => {},
        _ => {
            return Err(fail(src, toks, i + 1, SyntaxKind::ExpectedName));
        },
    }
    match kind(toks, i + 2) {
        Some(TokenKind::Assign) => {},
        _ => {
            return Err(fail(src, toks, i + 2, SyntaxKind::ExpectedAssign));
        },
    }
    match parse_expression(src, toks, i + 3) {
        Ok((e, j)) => match kind(toks, j) {
            Some(TokenKind::Semicolon) => Ok((Var { name: text(src, toks, i + 1), expr: e }, j + 1)),
            _ => Err(fail(src, toks, j, SyntaxKind::ExpectedSemicolon)),
        },
        Err(e) => Err(e),
    }
}

/// Applies `Stmt` at token `i`.
fn parse_statement(src: &Vec<char>, toks: &Vec<Token>, i: usize) -> (r: Result<
    (Expr, usize),
    ParseError,
>)
    requires
        well_placed(src@, toks@),
    ensures
        agrees(r, statement(src@, toks@, i as int)),
        r matches Ok((_, j)) ==> i < j <= toks.len(),
{
    match parse_expression(src, toks, i) {
        Ok((e, j)) => match kind(toks, j) {
            Some(TokenKind::Semicolon) => Ok((e, j + 1)),
            _ => Err(fail(src, toks, j, SyntaxKind::ExpectedSemicolon)),
        },
        Err(e) => Err(e),
    }
}

/// Applies `Body` at token `i`, the first after the opening brace, and
/// reads through the closing brace.
fn parse_body(src: &Vec<char>, toks: &Vec<Token>, i: usize) -> (r: Result<
    ((Vec<Var>, Vec<Expr>), usize),
    ParseError,
>)
    requires
        well_placed(src@, toks@),
    ensures
        match r {
            Ok(((vars, exprs), j)) => body(
                src@,
                toks@,
                i as int,
                Seq::empty(),
                Seq::empty(),
            ) == Ok::<((Seq<VarModel>, Seq<ExprModel>), int), ParseError>(
                ((views(vars@), views(exprs@)), j as int),
            ) && i < j <= toks.len(),
            Err(e) => body(src@, toks@, i as int, Seq::empty(), Seq::empty()) == Err::<
                ((Seq<VarModel>, Seq<ExprModel>), int),
                ParseError,
            >(e),
        },
{
    let mut vars: Vec<Var> = Vec::new();
    let mut exprs: Vec<Expr> = Vec::new();
    let mut j: usize = i;
    assert(views(vars@) =~= Seq::<VarModel>::empty());
    assert(views(exprs@) =~= Seq::<ExprModel>::empty());
    loop
        invariant
            well_placed(src@, toks@),
            i <= j,
            body(src@, toks@, i as int, Seq::empty(), Seq::empty()) == body(
                src@,
                toks@,
                j as int,
                views(vars@),
                views(exprs@),
            ),
        decreases toks.len() - j,
    {
        match kind(toks, j) {
            None => {
                return Err(fail(src, toks, j, SyntaxKind::ExpectedCloseBrace));
            },
            Some(TokenKind::CloseBrace) => {
                return Ok(((vars, exprs), j + 1));
            },
            Some(TokenKind::Let) => match parse_declaration(src, toks, j) {
                Ok((v, k)) => {
                    assert(views(vars@.push(v)) =~= views(vars@).push(v@));
                    vars.push(v);
                    j = k;
                },
                Err(e) => {
                    return Err(e);
                },
            },
            Some(_) => match parse_statement(src, toks, j) {
                Ok((e, k)) => {
                    assert(views(exprs@.push(e)) =~= views(exprs@).push(e@));
                    exprs.push(e);
                    j = k;
                },
                Err(e) => {
                    return Err(e);
                },
            },
        }
    }
}

/// Applies `ParamList` at token `i`, where a parameter must start, and
/// reads through the closing parenthesis.
fn parse_parameters(src: &Vec<char>, toks: &Vec<Token>, i: usize) -> (r: Result<
    (String, usize),
    ParseError,
>)
    requires
        well_placed(src@, toks@),
    ensures
        agrees(r, parameters(src@, toks@, i as int, Seq::empty())),
        r matches Ok((_, j)) ==> i < j <= toks.len(),
{
    let mut shown = String::new();
    let mut j: usize = i;
    loop
        invariant
            well_placed(src@, toks@),
            i <= j,
            parameters(src@, toks@, i as int, Seq::empty()) == parameters(
                src@,
                toks@,
                j as int,
                shown@,
            ),
        decreases toks.len() - j,
    {
        match kind(toks, j) {
            Some(TokenKind::Name) => {},
            _ => {
                return Err(fail(src, toks, j, SyntaxKind::ExpectedName));
            },
        }
        match kind(toks, j + 1) {
            Some(TokenKind::Colon) => {},
            _ => {
                return Err(fail(src, toks, j + 1, SyntaxKind::ExpectedColon));
            },
        }
        match kind(toks, j + 2) {
            Some(TokenKind::Name) => {},
            _ => {
                return Err(fail(src, toks, j + 2, SyntaxKind::ExpectedName));
            },
        }
        let ghost before = shown@;
        let name = text(src, toks, j);
        let ty = text(src, toks, j + 2);
        shown.append(name.as_str());
        shown.push(':');
        shown.push(' ');
        shown.append(ty.as_str());
        assert(shown@ =~= before + typed(name@, ty@));
        match kind(toks, j + 3) {
            Some(TokenKind::Comma) => {
                let ghost all = shown@;
                shown.push(',');
                shown.push(' ');
                assert(shown@ =~= all + seq![',', ' ']);
                j = j + 4;
            },
            Some(TokenKind::CloseParen) => {
                return Ok((shown, j + 4));
            },
            _ => {
                return Err(fail(src, toks, j + 3, SyntaxKind::ExpectedCloseParen));
            },
        }
    }
}

/// Applies `Function` at token `i`.
fn parse_function(src: &Vec<char>, toks: &Vec<Token>, i: usize) -> (r: Result<
    (Function, usize),
    ParseError,
>)
    requires
        well_placed(src@, toks@),
    ensures
        agrees(r, function(src@, toks@, i as int)),
        r matches Ok((_, j)) ==> i < j <= toks.len(),
{
    match kind(toks, i) {
        Some(TokenKind::Fn) => {},
        _ => {
            return Err(fail(src, toks, i, SyntaxKind::ExpectedFunction));
        },
    }
    assert(i < toks.len());
    match kind(toks, i + 1) {
        Some(TokenKind::Name) => {},
        _ => {
            return Err(fail(src, toks, i + 1, SyntaxKind::ExpectedName));
        },
    }
    assert(i + 1 < toks.len());
    match kind(toks, i + 2) {
        Some(TokenKind::OpenParen) => {},
        _ => {
            return Err(fail(src, toks, i + 2, SyntaxKind::ExpectedOpenParen));
        },
    }
    assert(i + 2 < toks.len());
    let listed = match kind(toks, i + 3) {
        Some(TokenKind::CloseParen) => Ok((String::new(), i + 4)),
        _ => parse_parameters(src, toks, i + 3),
    };
    let (args, j) = match listed {
        Ok(p) => p,
        Err(e) => {
            return Err(e);
        },
    };
    match kind(toks, j) {
        Some(TokenKind::OpenBrace) => {},
        _ => {
            return Err(fail(src, toks, j, SyntaxKind::ExpectedOpenBrace));
        },
    }
    match parse_body(src, toks, j + 1) {
        Ok(((vars, exprs), k)) => Ok(
            (Function { name: text(src, toks, i + 1), args, vars, exprs, ret: 0 }, k),
        ),
        Err(e) => Err(e),
    }
}


/// Whether token `i` is `fn` and the token after it is the name `main`.
fn declares_entry_here(src: &Vec<char>, toks: &Vec<Token>, i: usize) -> (b: bool)
    requires
        well_placed(src@, toks@),
        i < toks.len(),
    ensures
        b == declares_entry_at(src@, toks@, i as int),
{
    match kind(toks, i) {
        Some(TokenKind::Fn) => {},
        _ => {
            return false;
        },
    }
    match kind(toks, i + 1) {
        Some(TokenKind::Name) => {},
        _ => {
            return false;
        },
    }
    let start = toks[i + 1].start;
    let end = toks[i + 1].end;
    let ghost name = text_at(src@, toks@, i + 1);
    assert(name.len() == end - start);
    if end - start == 4 && src[start] == 'm' && src[start + 1] == 'a' && src[start + 2] == 'i'
        && src[start + 3] == 'n' {
        assert(name =~= entry_name());
        true
    } else {
        assert(name != entry_name()) by {
            if name == entry_name() {
                assert(name[0] == 'm' && name[1] == 'a' && name[2] == 'i' && name[3] == 'n');
            }
        }
        false
    }
}

/// Whether `fn` is followed by the name `main` anywhere among the tokens.
fn find_entry_declaration(src: &Vec<char>, toks: &Vec<Token>) -> (b: bool)
    requires
        well_placed(src@, toks@),
    ensures
        b == declares_entry(src@, toks@),
{
    let mut i: usize = 0;
    while i < toks.len()
        invariant
            well_placed(src@, toks@),
            i <= toks.len(),
            forall|k: int| 0 <= k < i ==> !#[trigger] declares_entry_at(src@, toks@, k),
        decreases toks.len() - i,
    {
        if declares_entry_here(src, toks, i) {
            return true;
        }
        i += 1;
    }
    false
}

/// Adding a function to a list adds an entry function exactly when the new
/// function is one.
proof fn lemma_has_entry_push(fns: Seq<FunctionModel>, f: FunctionModel)
    ensures
        has_entry(fns.push(f)) == (has_entry(fns) || is_entry(f)),
{
    let more = fns.push(f);
    if has_entry(fns) {
        let k = choose|k: int| 0 <= k < fns.len() && is_entry(#[trigger] fns[k]);
        assert(is_entry(more[k]));
    }
    if is_entry(f) {
        assert(is_entry(more[fns.len() as int]));
    }
    if has_entry(more) {
        let k = choose|k: int| 0 <= k < more.len() && is_entry(#[trigger] more[k]);
        if k < fns.len() {
            assert(is_entry(fns[k]));
        }
    }
}

/// Applies `Function+` to all the tokens.
fn parse_functions(src: &Vec<char>, toks: &Vec<Token>) -> (r: Result<Vec<Function>, ParseError>)
    requires
        well_placed(src@, toks@),
    ensures
        match r {
            Ok(fns) => functions(src@, toks@, 0, Seq::empty()) == Ok::<
                Seq<FunctionModel>,
                ParseError,
            >(views(fns@)),
            Err(e) => functions(src@, toks@, 0, Seq::empty()) == Err::<
                Seq<FunctionModel>,
                ParseError,
            >(e),
        },
{
    let mut fns: Vec<Function> = Vec::new();
    let mut seen: bool = false;
    let mut i: usize = 0;
    assert(views(fns@) =~= Seq::<FunctionModel>::empty());
    while i < toks.len()
        invariant
            well_placed(src@, toks@),
            i <= toks.len(),
            seen == has_entry(views(fns@)),
            functions(src@, toks@, 0, Seq::empty()) == functions(
                src@,
                toks@,
                i as int,
                views(fns@),
            ),
        decreases toks.len() - i,
    {
        let declares = declares_entry_here(src, toks, i);
        if declares && seen {
            return Err(ParseError::Syntax(SyntaxKind::DuplicateEntryPoint, toks[i + 1].start));
        }
        match parse_function(src, toks, i) {
            Ok((f, j)) => {
                proof {
                    assert(views(fns@.push(f)) =~= views(fns@).push(f@));
                    lemma_has_entry_push(views(fns@), f@);
                    assert(is_entry(f@) == declares);
                }
                if declares {
                    seen = true;
                }
                fns.push(f);
                i = j;
            },
            Err(e) => {
                return Err(e);
            },
        }
    }
    Ok(fns)
}

/// A string holding `main`.
fn entry() -> (s: String)
    ensures
        s@ == entry_name(),
{
    let mut s = String::new();
    s.push('m');
    s.push('a');
    s.push('i');
    s.push('n');
    assert(s@ =~= entry_name());
    s
}

/// Moves the first function named `main` to the front.
fn put_entry_first(fns: Vec<Function>) -> (r: Vec<Function>)
    ensures
        views(r@) == entry_first(views(fns@)),
{
    let mut fns = fns;
    let ghost given = views(fns@);
    let name = entry();
    let mut k: usize = 0;
    while k < fns.len() && fns[k].name != name
        invariant
            k <= fns.len(),
            given == views(fns@),
            name@ == entry_name(),
            entry_index(given, 0) == entry_index(given, k as int),
        decreases fns.len() - k,
    {
        k += 1;
    }
    if k < fns.len() {
        let f = fns.remove(k);
        assert(views(fns@) =~= given.remove(k as int));
        fns.insert(0, f);
        assert(views(fns@) =~= given.remove(k as int).insert(0, f@));
    }
    fns
}

/// The parser of the language.
pub struct CodeParser;

impl Default for CodeParser {
    fn default() -> Self {
        CodeParser
    }
}

impl CodeParser {
    /// Parses a source text into its functions, `main` first.
    ///
    /// Fails with `MissingEntryPoint` exactly when the text nowhere declares
    /// a function named `main`, and otherwise with the first syntax error,
    /// if there is one. A program that parses starts with its one function
    /// named `main`; the others follow in source order.
    pub fn parse(&self, source: &str) -> (r: Result<Vec<Function>, ParseError>)
        ensures
            parsed_as(source@, r),
            r matches Ok(fns) ==> entry_leads(views(fns@)),
    {
        proof {
            lemma_parsed_entry_leads(source@);
        }
        let src = chars_of(source);
        let toks = lex(&src);
        if !find_entry_declaration(&src, &toks) {
            return Err(ParseError::MissingEntryPoint);
        }
        match parse_functions(&src, &toks) {
            Ok(fns) => Ok(put_entry_first(fns)),
            Err(e) => Err(e),
        }
    }
}

} // verus!
