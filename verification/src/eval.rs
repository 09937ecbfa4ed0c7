//! The evaluator: what an expression and a program compute against a symbol
//! table, and the executable walk that computes it.

use crate::ast::{Expr, ExprModel, Function, FunctionModel, Operator, Var, VarModel, views};
use crate::error::{LookupError, RuntimeError};
use crate::memory::{Bindings, Memory};
use vstd::prelude::*;

verus! {

/// What evaluation leaves behind: a value or an error, and the symbol table
/// as it then stands. An error keeps the changes made before it.
pub struct Outcome {
    pub result: Result<i32, RuntimeError>,
    pub memory: Bindings,
}

/// An outcome that reports `error` and leaves `memory` as it is.
pub open spec fn failed(error: RuntimeError, memory: Bindings) -> Outcome {
    Outcome { result: Err(error), memory }
}

/// The quotient of `a` by `b`, rounded toward zero.
pub open spec fn quotient(a: int, b: int) -> int
    recommends
        b != 0,
{
    if a >= 0 {
        if b > 0 {
            a / b
        } else {
            -(a / (-b))
        }
    } else {
        if b > 0 {
            -((-a) / b)
        } else {
            (-a) / (-b)
        }
    }
}

/// The exact result of a binary arithmetic operator on unbounded integers.
pub open spec fn exact(op: Operator, a: int, b: int) -> int
    recommends
        op is Add || op is Sub || op is Mul || (op is Div && b != 0),
{
    match op {
        Operator::Add => a + b,
        Operator::Sub => a - b,
        Operator::Mul => a * b,
        _ => quotient(a, b),
    }
}

/// `v` as a 32-bit value, or `Overflow` if it does not fit.
pub open spec fn checked(v: int) -> Result<i32, RuntimeError> {
    if i32::MIN <= v <= i32::MAX {
        Ok(v as i32)
    } else {
        Err(RuntimeError::Overflow)
    }
}

/// The value of `a op b` for the four arithmetic operators: division by
/// zero is an error, and so is a result outside the 32-bit range.
pub open spec fn arithmetic(op: Operator, a: i32, b: i32) -> Result<i32, RuntimeError>
    recommends
        op is Add || op is Sub || op is Mul || op is Div,
{
    if op is Div && b == 0 {
        Err(RuntimeError::DivisionByZero)
    } else {
        checked(exact(op, a as int, b as int))
    }
}

/// The outcome of moving the variable `name`, whose value is `v`, by
/// `delta`: the new value is bound to the name as a literal and returned.
pub open spec fn stepped(name: Seq<char>, v: i32, delta: int, memory: Bindings) -> Outcome {
    match checked(v + delta) {
        Ok(w) => Outcome { result: Ok(w), memory: memory.insert(name, ExprModel::Literal(w)) },
        Err(e) => failed(e, memory),
    }
}

/// The outcome of evaluating `e` against `memory`, with at most `depth`
/// nested lookups.
///
/// A literal is its value. A reference evaluates, afresh each time, the
/// expression currently bound to its name; an unbound name is `NotFound`,
/// and a lookup nested deeper than `depth` is `CyclicReference`. Prefix `+`
/// is its operand and prefix `-` its negation; any other prefix operator is
/// `UnsupportedOperator`. The four arithmetic operators evaluate the left
/// operand, then the right, and combine them as [`arithmetic`] says.
/// Increment and decrement need a reference as their left operand: its
/// value, moved by one, is bound to the name as a literal and is the value
/// of the whole; on anything else they are `UnsupportedOperator`, as the
/// complement always is. The first error ends the evaluation.
pub open spec fn evaluated(e: ExprModel, memory: Bindings, depth: nat) -> Outcome
    decreases depth, e,
{
    match e {
        ExprModel::Literal(n) => Outcome { result: Ok(n), memory },
        ExprModel::Reference(name) => if !memory.contains_key(name) {
            failed(RuntimeError::Lookup(LookupError::NotFound), memory)
        } else if depth == 0 {
            failed(RuntimeError::CyclicReference, memory)
        } else {
            evaluated(memory[name], memory, (depth - 1) as nat)
        },
        ExprModel::Unary { child, op } => match op {
            Operator::Add => evaluated(*child, memory, depth),
            Operator::Sub => {
                let o = evaluated(*child, memory, depth);
                match o.result {
                    Ok(v) => Outcome { result: checked(-(v as int)), memory: o.memory },
                    Err(_) => o,
                }
            },
            _ => failed(RuntimeError::UnsupportedOperator, memory),
        },
        ExprModel::Binary { lhs, op, rhs } => match op {
            Operator::Incr | Operator::Decr => match *lhs {
                ExprModel::Reference(name) => {
                    let o = evaluated(*lhs, memory, depth);
                    match o.result {
                        Ok(v) => stepped(name, v, if op is Incr { 1int } else { -1int }, o.memory),
                        Err(_) => o,
                    }
                },
                _ => failed(RuntimeError::UnsupportedOperator, memory),
            },
            Operator::Comp => failed(RuntimeError::UnsupportedOperator, memory),
            _ => {
                let l = evaluated(*lhs, memory, depth);
                match l.result {
                    Ok(a) => {
                        let r = evaluated(*rhs, l.memory, depth);
                        match r.result {
                            Ok(b) => Outcome { result: arithmetic(op, a, b), memory: r.memory },
                            Err(_) => r,
                        }
                    },
                    Err(_) => l,
                }
            },
        },
    }
}

/// The outcome of evaluating `e` against `memory` from the top: the number
/// of nested lookups is bounded by the number of bound names, which no
/// chain of distinct names exceeds.
pub open spec fn valued(e: ExprModel, memory: Bindings) -> Outcome {
    evaluated(e, memory, memory.dom().len())
}

/// The outcome of the declarations `vars[from..]`, in order: each binds its
/// name to its initializer and then evaluates the initializer. The first
/// error ends the run; without one the result is zero.
pub open spec fn declared(vars: Seq<VarModel>, from: int, memory: Bindings) -> Outcome
    decreases vars.len() - from,
{
    if from < 0 || from >= vars.len() {
        Outcome { result: Ok(0), memory }
    } else {
        let o = valued(vars[from].expr, memory.insert(vars[from].name, vars[from].expr));
        match o.result {
            Ok(_) => declared(vars, from + 1, o.memory),
            Err(_) => o,
        }
    }
}

/// The outcome of the statements `exprs[from..]`, each evaluated in order
/// for its effect. The first error ends the run; without one the result is
/// zero.
pub open spec fn stated(exprs: Seq<ExprModel>, from: int, memory: Bindings) -> Outcome
    decreases exprs.len() - from,
{
    if from < 0 || from >= exprs.len() {
        Outcome { result: Ok(0), memory }
    } else {
        let o = valued(exprs[from], memory);
        match o.result {
            Ok(_) => stated(exprs, from + 1, o.memory),
            Err(_) => o,
        }
    }
}

/// The outcome of one function: all its declarations, then all its
/// statements.
pub open spec fn called(f: FunctionModel, memory: Bindings) -> Outcome {
    let o = declared(f.vars, 0, memory);
    match o.result {
        Ok(_) => stated(f.exprs, 0, o.memory),
        Err(_) => o,
    }
}

/// The outcome of the functions `program[from..]`, each run in order
/// against the one shared table. The first error ends the run; without one
/// the result is the status code zero.
pub open spec fn executed(program: Seq<FunctionModel>, from: int, memory: Bindings) -> Outcome
    decreases program.len() - from,
{
    if from < 0 || from >= program.len() {
        Outcome { result: Ok(0), memory }
    } else {
        let o = called(program[from], memory);
        match o.result {
            Ok(_) => executed(program, from + 1, o.memory),
            Err(_) => o,
        }
    }
}

/// `v` as a 32-bit value, or `Overflow` if it does not fit.
fn narrow(v: i64) -> (r: Result<i32, RuntimeError>)
    ensures
        r == checked(v as int),
{
    if v < -2147483648i64 || v > 2147483647i64 {
        Err(RuntimeError::Overflow)
    } else {
        Ok(v as i32)
    }
}

/// The quotient of `a` by a non-zero `b`, rounded toward zero.
fn divide(a: i32, b: i32) -> (q: i64)
    requires
        b != 0,
    ensures
        q == quotient(a as int, b as int),
{
    let x: i64 = a as i64;
    let y: i64 = b as i64;
    let p: u64 = if x < 0 {
        (-x) as u64
    } else {
        x as u64
    };
    let d: u64 = if y < 0 {
        (-y) as u64
    } else {
        y as u64
    };
    let m: u64 = p / d;
    assert(m <= p) by (nonlinear_arith)
        requires
            m == p / d,
            d >= 1,
    ;
    if (x < 0) != (y < 0) {
        -(m as i64)
    } else {
        m as i64
    }
}

/// Applies one of the four arithmetic operators.
fn apply(op: Operator, a: i32, b: i32) -> (r: Result<i32, RuntimeError>)
    requires
        op is Add || op is Sub || op is Mul || op is Div,
    ensures
        r == arithmetic(op, a, b),
{
    let x: i64 = a as i64;
    let y: i64 = b as i64;
    match op {
        Operator::Add => narrow(x + y),
        Operator::Sub => narrow(x - y),
        Operator::Mul => {
            assert(-0x8000_0000 * 0x8000_0000 <= x * y <= 0x8000_0000 * 0x8000_0000)
                by (nonlinear_arith)
                requires
                    -0x8000_0000 <= x < 0x8000_0000,
                    -0x8000_0000 <= y < 0x8000_0000,
            ;
            narrow(x * y)
        },
        _ => {
            if b == 0 {
                Err(RuntimeError::DivisionByZero)
            } else {
                narrow(divide(a, b))
            }
        },
    }
}

/// An evaluator: a symbol table and the walk over expressions that reads
/// and changes it.
pub struct Eval {
    pub memory: Memory,
}

impl Default for Eval {
    /// An evaluator with an empty table.
    fn default() -> (e: Self)
        ensures
            e.memory@ == Map::<Seq<char>, ExprModel>::empty(),
    {
        Eval { memory: Memory::new() }
    }
}

impl Eval {
    /// Evaluates `e` with at most `depth` nested lookups.
    fn eval_within(&mut self, e: &Expr, depth: usize) -> (r: Result<i32, RuntimeError>)
        ensures
            r == evaluated(e@, old(self).memory@, depth as nat).result,
            final(self).memory@ == evaluated(e@, old(self).memory@, depth as nat).memory,
        decreases depth, e,
    {
        match e {
            Expr::Literal(n) => Ok(*n),
            Expr::Reference(name) => {
                let bound = match self.memory.find(name.as_str()) {
                    Ok(b) => b.clone(),
                    Err(e) => {
                        return Err(RuntimeError::Lookup(e));
                    },
                };
                if depth == 0 {
                    return Err(RuntimeError::CyclicReference);
                }
                self.eval_within(&bound, depth - 1)
            },
            Expr::Unary { child, op } => match op {
                Operator::Add => self.eval_within(&**child, depth),
                Operator::Sub => match self.eval_within(&**child, depth) {
                    Ok(v) => narrow(-(v as i64)),
                    Err(e) => Err(e),
                },
                _ => Err(RuntimeError::UnsupportedOperator),
            },
            Expr::Binary { lhs, op, rhs } => match op {
                Operator::Incr | Operator::Decr => match &**lhs {
                    Expr::Reference(name) => match self.eval_within(&**lhs, depth) {
                        Ok(v) => {
                            let delta: i64 = match op {
                                Operator::Incr => 1,
                                _ => -1,
                            };
                            match narrow(v as i64 + delta) {
                                Ok(w) => {
                                    self.memory.add(&Var { name: name.clone(), expr: Expr::Literal(w) });
                                    Ok(w)
                                },
                                Err(e) => Err(e),
                            }
                        },
                        Err(e) => Err(e),
                    },
                    _ => Err(RuntimeError::UnsupportedOperator),
                },
                Operator::Comp => Err(RuntimeError::UnsupportedOperator),
                _ => match self.eval_within(&**lhs, depth) {
                    Ok(a) => match self.eval_within(&**rhs, depth) {
                        Ok(b) => apply(*op, a, b),
                        Err(e) => Err(e),
                    },
                    Err(e) => Err(e),
                },
            },
        }
    }

    /// Evaluates `e` against the table, changing it where `e` increments or
    /// decrements a variable. The value or error returned and the table
    /// afterwards are exactly those of [`valued`].
    pub fn eval(&mut self, e: &Expr) -> (r: Result<i32, RuntimeError>)
        ensures
            r == valued(e@, old(self).memory@).result,
            final(self).memory@ == valued(e@, old(self).memory@).memory,
    {
        let depth = self.memory.len();
        self.eval_within(e, depth)
    }

    /// Runs the declarations of a function body in order: each binds its
    /// name to its initializer and then evaluates the initializer.
    fn declare(&mut self, vars: &Vec<Var>) -> (r: Result<i32, RuntimeError>)
        ensures
            r == declared(views(vars@), 0, old(self).memory@).result,
            final(self).memory@ == declared(views(vars@), 0, old(self).memory@).memory,
    {
        let ghost start = self.memory@;
        let ghost models = views(vars@);
        let mut j: usize = 0;
        while j < vars.len()
            invariant
                j <= vars.len(),
                models == views(vars@),
                start == old(self).memory@,
                declared(models, 0, start) == declared(models, j as int, self.memory@),
            decreases vars.len() - j,
        {
            let v = &vars[j];
            assert(models[j as int] == v@);
            self.memory.add(v);
            match self.eval(&v.expr) {
                Ok(_) => {},
                Err(e) => {
                    return Err(e);
                },
            }
            j += 1;
        }
        Ok(0)
    }

    /// Evaluates the statements of a function body in order.
    fn state(&mut self, exprs: &Vec<Expr>) -> (r: Result<i32, RuntimeError>)
        ensures
            r == stated(views(exprs@), 0, old(self).memory@).result,
            final(self).memory@ == stated(views(exprs@), 0, old(self).memory@).memory,
    {
        let ghost start = self.memory@;
        let ghost models = views(exprs@);
        let mut k: usize = 0;
        while k < exprs.len()
            invariant
                k <= exprs.len(),
                models == views(exprs@),
                start == old(self).memory@,
                stated(models, 0, start) == stated(models, k as int, self.memory@),
            decreases exprs.len() - k,
        {
            let e = &exprs[k];
            assert(models[k as int] == e@);
            match self.eval(e) {
                Ok(_) => {},
                Err(e) => {
                    return Err(e);
                },
            }
            k += 1;
        }
        Ok(0)
    }

    /// Runs one function against the table: all its declarations, then all
    /// its statements. Its parameters are not bound. Returns zero, or the
    /// first error, and leaves the table as [`called`] says.
    pub fn call(&mut self, f: &Function) -> (r: Result<i32, RuntimeError>)
        ensures
            r == called(f@, old(self).memory@).result,
            final(self).memory@ == called(f@, old(self).memory@).memory,
    {
        match self.declare(&f.vars) {
            Ok(_) => self.state(&f.exprs),
            Err(e) => Err(e),
        }
    }

    /// Runs every function of `program` in order against the one table.
    /// Returns the status code zero, or the first error met anywhere, and
    /// leaves the table as [`executed`] says.
    pub fn execute(&mut self, program: &Vec<Function>) -> (r: Result<i32, RuntimeError>)
        ensures
            r == executed(views(program@), 0, old(self).memory@).result,
            final(self).memory@ == executed(views(program@), 0, old(self).memory@).memory,
    {
        let ghost start = self.memory@;
        let ghost models = views(program@);
        let mut i: usize = 0;
        while i < program.len()
            invariant
                i <= program.len(),
                models == views(program@),
                start == old(self).memory@,
                executed(models, 0, start) == executed(models, i as int, self.memory@),
            decreases program.len() - i,
        {
            let f = &program[i];
            assert(models[i as int] == f@);
            match self.call(f) {
                Ok(_) => {},
                Err(e) => {
                    return Err(e);
                },
            }
            i += 1;
        }
        Ok(0)
    }
}

} // verus!
