//! The syntax tree of a program, its mathematical model, and the canonical
//! text of each of its parts.

use crate::error::RuntimeError;
use crate::text::{decimal, render_int};
use vstd::prelude::*;
use vstd::string::StringExecFns;

verus! {

/// The operators of the language.
#[derive(Copy, Debug, PartialEq, Eq)]
pub enum Operator {
    /// `+`: binary addition, or a prefix sign.
    Add,
    /// `-`: binary subtraction, or a prefix sign.
    Sub,
    /// `*`: binary multiplication.
    Mul,
    /// `/`: binary division.
    Div,
    /// `++`: postfix increment of a variable.
    Incr,
    /// `--`: postfix decrement of a variable.
    Decr,
    /// `!`: complement. It has a symbol but no meaning yet.
    Comp,
}

/// An expression tree.
#[derive(Debug, PartialEq, Eq)]
pub enum Expr {
    /// A prefix operator applied to one operand.
    Unary { child: Box<Expr>, op: Operator },
    /// A binary operator. Increment and decrement have this shape too: they
    /// act on `lhs`, and `rhs` is carried along without being used.
    Binary { lhs: Box<Expr>, op: Operator, rhs: Box<Expr> },
    /// An integer constant.
    Literal(i32),
    /// The use of a variable, resolved when the expression is evaluated.
    Reference(String),
}

/// A named binding: `let name = expr`.
#[derive(Debug, PartialEq, Eq)]
pub struct Var {
    pub name: String,
    pub expr: Expr,
}

/// One declared function.
#[derive(Debug, PartialEq, Eq)]
pub struct Function {
    pub name: String,
    /// The declared parameters, written as `name: type` and joined by `, `.
    /// They are kept as text and never bound.
    pub args: String,
    /// The `let` declarations of the body, in source order.
    pub vars: Vec<Var>,
    /// The statements of the body, in source order.
    pub exprs: Vec<Expr>,
    /// The status code of the function: always zero.
    pub ret: i32,
}

/// The model of an [`Expr`]: the same tree with names as character
/// sequences.
pub enum ExprModel {
    Unary { child: Box<ExprModel>, op: Operator },
    Binary { lhs: Box<ExprModel>, op: Operator, rhs: Box<ExprModel> },
    Literal(i32),
    Reference(Seq<char>),
}

/// The model of a [`Var`].
pub struct VarModel {
    pub name: Seq<char>,
    pub expr: ExprModel,
}

/// The model of a [`Function`].
pub struct FunctionModel {
    pub name: Seq<char>,
    pub args: Seq<char>,
    pub vars: Seq<VarModel>,
    pub exprs: Seq<ExprModel>,
    pub ret: i32,
}

/// The models of the elements of a sequence, in order.
pub open spec fn views<T: View>(s: Seq<T>) -> Seq<T::V> {
    s.map_values(|t: T| t@)
}

impl Expr {
    /// The model of this expression.
    pub open spec fn model(self) -> ExprModel
        decreases self,
    {
        match self {
            Expr::Unary { child, op } => ExprModel::Unary { child: Box::new((*child).model()), op },
            Expr::Binary { lhs, op, rhs } => ExprModel::Binary {
                lhs: Box::new((*lhs).model()),
                op,
                rhs: Box::new((*rhs).model()),
            },
            Expr::Literal(n) => ExprModel::Literal(n),
            Expr::Reference(s) => ExprModel::Reference(s@),
        }
    }
}

impl View for Expr {
    type V = ExprModel;

    open spec fn view(&self) -> ExprModel {
        self.model()
    }
}

impl View for Var {
    type V = VarModel;

    open spec fn view(&self) -> VarModel {
        VarModel { name: self.name@, expr: self.expr@ }
    }
}

impl View for Function {
    type V = FunctionModel;

    open spec fn view(&self) -> FunctionModel {
        FunctionModel {
            name: self.name@,
            args: self.args@,
            vars: views(self.vars@),
            exprs: views(self.exprs@),
            ret: self.ret,
        }
    }
}

impl Clone for Operator {
    fn clone(&self) -> (r: Self)
        ensures
            r == *self,
    {
        *self
    }
}

impl Clone for Expr {
    fn clone(&self) -> (r: Self)
        ensures
            r == *self,
        decreases self,
    {
        match self {
            Expr::Unary { child, op } => Expr::Unary { child: Box::new((**child).clone()), op: *op },
            Expr::Binary { lhs, op, rhs } => Expr::Binary {
                lhs: Box::new((**lhs).clone()),
                op: *op,
                rhs: Box::new((**rhs).clone()),
            },
            Expr::Literal(n) => Expr::Literal(*n),
            Expr::Reference(s) => Expr::Reference(s.clone()),
        }
    }
}

impl Clone for Var {
    fn clone(&self) -> (r: Self)
        ensures
            r == *self,
    {
        Var { name: self.name.clone(), expr: self.expr.clone() }
    }
}

impl Operator {
    /// The symbol of the operator.
    pub open spec fn symbol(self) -> Seq<char> {
        match self {
            Operator::Add => seq!['+'],
            Operator::Sub => seq!['-'],
            Operator::Mul => seq!['*'],
            Operator::Div => seq!['/'],
            Operator::Incr => seq!['+', '+'],
            Operator::Decr => seq!['-', '-'],
            Operator::Comp => seq!['!'],
        }
    }

    /// The symbol of the operator, as text.
    pub fn render(&self) -> (s: String)
        ensures
            s@ == self.symbol(),
    {
        let mut s = String::new();
        match self {
            Operator::Add => {
                s.push('+');
            },
            Operator::Sub => {
                s.push('-');
            },
            Operator::Mul => {
                s.push('*');
            },
            Operator::Div => {
                s.push('/');
            },
            Operator::Incr => {
                s.push('+');
                s.push('+');
            },
            Operator::Decr => {
                s.push('-');
                s.push('-');
            },
            Operator::Comp => {
                s.push('!');
            },
        }
        s
    }
}

/// `left`, a space, the operator's symbol, a space, `right`.
pub open spec fn infix(left: Seq<char>, op: Operator, right: Seq<char>) -> Seq<char> {
    left + seq![' '] + op.symbol() + seq![' '] + right
}

impl ExprModel {
    /// The canonical text of an expression.
    ///
    /// A literal is its decimal numeral and a reference is its name. A
    /// prefix `+` shows only its operand, a prefix `-` puts a minus sign
    /// before it, and no other prefix operator can be shown. An increment
    /// shows only its operand, a decrement appends `--`, a complement puts
    /// `!` before its operand; these three never show their right operand.
    /// Any other binary operator stands between its two operands, set off by
    /// single spaces. A part that cannot be shown makes the whole fail, the
    /// left operand first.
    pub open spec fn rendered(self) -> Result<Seq<char>, RuntimeError>
        decreases self,
    {
        match self {
            ExprModel::Literal(n) => Ok(decimal(n as int)),
            ExprModel::Reference(s) => Ok(s),
            ExprModel::Unary { child, op } => match op {
                Operator::Add => (*child).rendered(),
                Operator::Sub => match (*child).rendered() {
                    Ok(t) => Ok(seq!['-'] + t),
                    Err(e) => Err(e),
                },
                _ => Err(RuntimeError::UnsupportedOperator),
            },
            ExprModel::Binary { lhs, op, rhs } => match op {
                Operator::Incr => (*lhs).rendered(),
                Operator::Decr => match (*lhs).rendered() {
                    Ok(t) => Ok(t + seq!['-', '-']),
                    Err(e) => Err(e),
                },
                Operator::Comp => match (*lhs).rendered() {
                    Ok(t) => Ok(seq!['!'] + t),
                    Err(e) => Err(e),
                },
                _ => match (*lhs).rendered() {
                    Ok(l) => match (*rhs).rendered() {
                        Ok(r) => Ok(infix(l, op, r)),
                        Err(e) => Err(e),
                    },
                    Err(e) => Err(e),
                },
            },
        }
    }
}

/// `left`, a space, the operator's symbol, a space, `right`, as text.
fn render_infix(left: String, op: Operator, right: &str) -> (s: String)
    ensures
        s@ == infix(left@, op, right@),
{
    let mut s = left;
    s.push(' ');
    let symbol = op.render();
    s.append(symbol.as_str());
    s.push(' ');
    s.append(right);
    s
}

impl Expr {
    /// The canonical text of this expression, or `UnsupportedOperator` where
    /// it holds a prefix operator other than `+` and `-` in a place that is
    /// shown.
    pub fn render(&self) -> (r: Result<String, RuntimeError>)
        ensures
            match r {
                Ok(s) => self@.rendered() == Ok::<Seq<char>, RuntimeError>(s@),
                Err(e) => self@.rendered() == Err::<Seq<char>, RuntimeError>(e),
            },
        decreases self,
    {
        match self {
            Expr::Literal(n) => Ok(render_int(*n)),
            Expr::Reference(name) => Ok(name.clone()),
            Expr::Unary { child, op } => match op {
                Operator::Add => (**child).render(),
                Operator::Sub => match (**child).render() {
                    Ok(t) => {
                        let mut s = String::new();
                        s.push('-');
                        s.append(t.as_str());
                        assert(s@ =~= seq!['-'] + t@);
                        Ok(s)
                    },
                    Err(e) => Err(e),
                },
                _ => Err(RuntimeError::UnsupportedOperator),
            },
            Expr::Binary { lhs, op, rhs } => match op {
                Operator::Incr => (**lhs).render(),
                Operator::Decr => match (**lhs).render() {
                    Ok(t) => {
                        let ghost shown = t@;
                        let mut s = t;
                        s.push('-');
                        s.push('-');
                        assert(s@ =~= shown + seq!['-', '-']);
                        Ok(s)
                    },
                    Err(e) => Err(e),
                },
                Operator::Comp => match (**lhs).render() {
                    Ok(t) => {
                        let mut s = String::new();
                        s.push('!');
                        s.append(t.as_str());
                        assert(s@ =~= seq!['!'] + t@);
                        Ok(s)
                    },
                    Err(e) => Err(e),
                },
                _ => match (**lhs).render() {
                    Ok(l) => match (**rhs).render() {
                        Ok(r) => Ok(render_infix(l, *op, r.as_str())),
                        Err(e) => Err(e),
                    },
                    Err(e) => Err(e),
                },
            },
        }
    }
}

/// The characters `let `.
pub open spec fn let_prefix() -> Seq<char> {
    seq!['l', 'e', 't', ' ']
}

/// The characters ` = `.
pub open spec fn binds() -> Seq<char> {
    seq![' ', '=', ' ']
}

impl VarModel {
    /// The text of a declaration: `let `, the name, ` = `, and the
    /// initializer written out one level deep. A literal or a reference is
    /// written as itself. A prefix operator is written after the text of its
    /// operand. A binary operator, increment, decrement and complement
    /// included, is written between the texts of its two operands, set off
    /// by single spaces. The operands themselves are written as
    /// [`ExprModel::rendered`] writes them.
    pub open spec fn rendered(self) -> Result<Seq<char>, RuntimeError> {
        let head = let_prefix() + self.name + binds();
        match self.expr {
            ExprModel::Unary { child, op } => match (*child).rendered() {
                Ok(t) => Ok(head + t + op.symbol()),
                Err(e) => Err(e),
            },
            ExprModel::Binary { lhs, op, rhs } => match (*lhs).rendered() {
                Ok(l) => match (*rhs).rendered() {
                    Ok(r) => Ok(head + infix(l, op, r)),
                    Err(e) => Err(e),
                },
                Err(e) => Err(e),
            },
            ExprModel::Literal(n) => Ok(head + decimal(n as int)),
            ExprModel::Reference(s) => Ok(head + s),
        }
    }
}

impl Var {
    /// The text of this declaration, or `UnsupportedOperator` where an
    /// operand of its initializer cannot be shown.
    pub fn render(&self) -> (r: Result<String, RuntimeError>)
        ensures
            match r {
                Ok(s) => self@.rendered() == Ok::<Seq<char>, RuntimeError>(s@),
                Err(e) => self@.rendered() == Err::<Seq<char>, RuntimeError>(e),
            },
    {
        let mut head = String::new();
        head.push('l');
        head.push('e');
        head.push('t');
        head.push(' ');
        head.append(self.name.as_str());
        head.push(' ');
        head.push('=');
        head.push(' ');
        assert(head@ =~= let_prefix() + self.name@ + binds());
        match &self.expr {
            Expr::Unary { child, op } => match (**child).render() {
                Ok(t) => {
                    head.append(t.as_str());
                    let symbol = op.render();
                    head.append(symbol.as_str());
                    Ok(head)
                },
                Err(e) => Err(e),
            },
            Expr::Binary { lhs, op, rhs } => match (**lhs).render() {
                Ok(l) => match (**rhs).render() {
                    Ok(r) => {
                        let tail = render_infix(l, *op, r.as_str());
                        head.append(tail.as_str());
                        Ok(head)
                    },
                    Err(e) => Err(e),
                },
                Err(e) => Err(e),
            },
            Expr::Literal(n) => {
                let t = render_int(*n);
                head.append(t.as_str());
                Ok(head)
            },
            Expr::Reference(name) => {
                head.append(name.as_str());
                Ok(head)
            },
        }
    }
}

/// `shown` followed by the declarations `vars[from..]`, each written as a
/// space, its text and a semicolon; the error of the first that has no
/// text.
pub open spec fn declarations_rendered(vars: Seq<VarModel>, from: int, shown: Seq<char>) -> Result<
    Seq<char>,
    RuntimeError,
>
    decreases vars.len() - from,
{
    if from < 0 || from >= vars.len() {
        Ok(shown)
    } else {
        match vars[from].rendered() {
            Ok(t) => declarations_rendered(vars, from + 1, shown + seq![' '] + t + seq![';']),
            Err(e) => Err(e),
        }
    }
}

/// `shown` followed by the statements `exprs[from..]`, each written as a
/// space, its text and a semicolon; the error of the first that has no
/// text.
pub open spec fn statements_rendered(exprs: Seq<ExprModel>, from: int, shown: Seq<char>) -> Result<
    Seq<char>,
    RuntimeError,
>
    decreases exprs.len() - from,
{
    if from < 0 || from >= exprs.len() {
        Ok(shown)
    } else {
        match exprs[from].rendered() {
            Ok(t) => statements_rendered(exprs, from + 1, shown + seq![' '] + t + seq![';']),
            Err(e) => Err(e),
        }
    }
}

impl FunctionModel {
    /// The head of a function's text: `fn `, the name, the parameters in
    /// parentheses, and ` {`.
    pub open spec fn head(self) -> Seq<char> {
        seq!['f', 'n', ' '] + self.name + seq!['('] + self.args + seq![')', ' ', '{']
    }

    /// The canonical text of a function: its head, its declarations and
    /// then its statements, each after a space and closed by a semicolon,
    /// and ` }`. The status code is not shown.
    pub open spec fn rendered(self) -> Result<Seq<char>, RuntimeError> {
        match declarations_rendered(self.vars, 0, self.head()) {
            Ok(declared) => match statements_rendered(self.exprs, 0, declared) {
                Ok(all) => Ok(all + seq![' ', '}']),
                Err(e) => Err(e),
            },
            Err(e) => Err(e),
        }
    }
}

impl Function {
    /// The canonical text of this function, or `UnsupportedOperator` where
    /// one of its declarations or statements cannot be shown.
    pub fn render(&self) -> (r: Result<String, RuntimeError>)
        ensures
            match r {
                Ok(s) => self@.rendered() == Ok::<Seq<char>, RuntimeError>(s@),
                Err(e) => self@.rendered() == Err::<Seq<char>, RuntimeError>(e),
            },
    {
        let mut out = String::new();
        out.push('f');
        out.push('n');
        out.push(' ');
        out.append(self.name.as_str());
        out.push('(');
        out.append(self.args.as_str());
        out.push(')');
        out.push(' ');
        out.push('{');
        assert(out@ =~= self@.head());
        let ghost vars = views(self.vars@);
        let mut i: usize = 0;
        while i < self.vars.len()
            invariant
                i <= self.vars.len(),
                vars == views(self.vars@),
                declarations_rendered(vars, 0, self@.head()) == declarations_rendered(
                    vars,
                    i as int,
                    out@,
                ),
            decreases self.vars.len() - i,
        {
            assert(vars[i as int] == self.vars[i as int]@);
            match self.vars[i].render() {
                Ok(t) => {
                    let ghost before = out@;
                    out.push(' ');
                    out.append(t.as_str());
                    out.push(';');
                    assert(out@ =~= before + seq![' '] + t@ + seq![';']);
                },
                Err(e) => {
                    return Err(e);
                },
            }
            i += 1;
        }
        let ghost declared = out@;
        let ghost exprs = views(self.exprs@);
        let mut k: usize = 0;
        while k < self.exprs.len()
            invariant
                k <= self.exprs.len(),
                exprs == views(self.exprs@),
                self@.vars == vars,
                self@.exprs == exprs,
                declarations_rendered(vars, 0, self@.head()) == Ok::<Seq<char>, RuntimeError>(
                    declared,
                ),
                statements_rendered(exprs, 0, declared) == statements_rendered(
                    exprs,
                    k as int,
                    out@,
                ),
            decreases self.exprs.len() - k,
        {
            assert(exprs[k as int] == self.exprs[k as int]@);
            match self.exprs[k].render() {
                Ok(t) => {
                    let ghost before = out@;
                    out.push(' ');
                    out.append(t.as_str());
                    out.push(';');
                    assert(out@ =~= before + seq![' '] + t@ + seq![';']);
                },
                Err(e) => {
                    return Err(e);
                },
            }
            k += 1;
        }
        let ghost all = out@;
        out.push(' ');
        out.push('}');
        assert(out@ =~= all + seq![' ', '}']);
        Ok(out)
    }
}

} // verus!
