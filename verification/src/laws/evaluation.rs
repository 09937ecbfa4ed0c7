//! Theorems about evaluation: which names are bound after a run, what an
//! increment leaves behind, when division fails, and that a cycle is only
//! reported where the bindings hold one.

use crate::ast::{ExprModel, FunctionModel, Operator, VarModel};
use crate::error::RuntimeError;
use crate::eval::{called, declared, evaluated, executed, stated, valued};
use crate::memory::Bindings;
use vstd::prelude::*;

verus! {

/// Evaluation binds no new name and drops none: it only rebinds names that
/// are bound already.
pub proof fn lemma_evaluation_keeps_names(e: ExprModel, memory: Bindings, depth: nat)
    ensures
        evaluated(e, memory, depth).memory.dom() == memory.dom(),
    decreases depth, e,
{
    match e {
        ExprModel::Literal(_) => {},
        ExprModel::Reference(name) => {
            if memory.contains_key(name) && depth > 0 {
                lemma_evaluation_keeps_names(memory[name], memory, (depth - 1) as nat);
            }
        },
        ExprModel::Unary { child, op } => {
            if op is Add || op is Sub {
                lemma_evaluation_keeps_names(*child, memory, depth);
            }
        },
        ExprModel::Binary { lhs, op, rhs } => match op {
            Operator::Incr | Operator::Decr => match *lhs {
                ExprModel::Reference(name) => {
                    lemma_evaluation_keeps_names(*lhs, memory, depth);
                    let o = evaluated(*lhs, memory, depth);
                    if o.result is Ok {
                        assert(memory.dom().contains(name));
                        assert(evaluated(e, memory, depth).memory.dom() =~= memory.dom());
                    }
                },
                _ => {},
            },
            Operator::Comp => {},
            _ => {
                lemma_evaluation_keeps_names(*lhs, memory, depth);
                let l = evaluated(*lhs, memory, depth);
                if l.result is Ok {
                    lemma_evaluation_keeps_names(*rhs, l.memory, depth);
                }
            },
        },
    }
}

/// After an increment or decrement that succeeds, the name is bound to the
/// literal of the value it returned: the value the name had, moved by one.
pub proof fn lemma_step_rebinds(
    name: Seq<char>,
    op: Operator,
    rhs: ExprModel,
    memory: Bindings,
    depth: nat,
)
    requires
        op is Incr || op is Decr,
    ensures
        ({
            let e = ExprModel::Binary {
                lhs: Box::new(ExprModel::Reference(name)),
                op,
                rhs: Box::new(rhs),
            };
            let before = evaluated(ExprModel::Reference(name), memory, depth);
            let after = evaluated(e, memory, depth);
            after.result matches Ok(w) ==> {
                &&& before.result matches Ok(v)
                &&& w == v + (if op is Incr {
                    1int
                } else {
                    -1int
                })
                &&& after.memory == before.memory.insert(name, ExprModel::Literal(w))
                &&& after.memory.contains_key(name)
                &&& after.memory[name] == ExprModel::Literal(w)
            }
        }),
{
}

/// Dividing by an operand that evaluates to zero is `DivisionByZero`,
/// whatever the left operand evaluates to.
pub proof fn lemma_division_by_zero(lhs: ExprModel, rhs: ExprModel, memory: Bindings, depth: nat)
    requires
        evaluated(lhs, memory, depth).result is Ok,
        evaluated(rhs, evaluated(lhs, memory, depth).memory, depth).result == Ok::<
            i32,
            RuntimeError,
        >(0),
    ensures
        evaluated(
            ExprModel::Binary { lhs: Box::new(lhs), op: Operator::Div, rhs: Box::new(rhs) },
            memory,
            depth,
        ).result == Err::<i32, RuntimeError>(RuntimeError::DivisionByZero),
{
}

/// The declarations `vars[from..]`, when they all succeed, keep every name
/// that was bound and bind each of their own.
proof fn lemma_declared_binds(vars: Seq<VarModel>, from: int, memory: Bindings)
    requires
        0 <= from,
        declared(vars, from, memory).result is Ok,
    ensures
        forall|n: Seq<char>|
            memory.contains_key(n) ==> #[trigger] declared(vars, from, memory).memory.contains_key(
                n,
            ),
        forall|k: int|
            from <= k < vars.len() ==> declared(vars, from, memory).memory.contains_key(
                #[trigger] vars[k].name,
            ),
    decreases vars.len() - from,
{
    if from < vars.len() {
        let bound = memory.insert(vars[from].name, vars[from].expr);
        lemma_evaluation_keeps_names(vars[from].expr, bound, bound.dom().len());
        let o = valued(vars[from].expr, bound);
        assert(o.memory.dom() == bound.dom());
        lemma_declared_binds(vars, from + 1, o.memory);
        let end = declared(vars, from, memory).memory;
        assert(o.memory.contains_key(vars[from].name));
        assert forall|n: Seq<char>| memory.contains_key(n) implies #[trigger] end.contains_key(
            n,
        ) by {
            assert(bound.contains_key(n));
            assert(o.memory.dom().contains(n));
        }
    }
}

/// The statements `exprs[from..]` bind no new name and drop none.
proof fn lemma_stated_keeps_names(exprs: Seq<ExprModel>, from: int, memory: Bindings)
    requires
        0 <= from,
    ensures
        stated(exprs, from, memory).memory.dom() == memory.dom(),
    decreases exprs.len() - from,
{
    if from < exprs.len() {
        lemma_evaluation_keeps_names(exprs[from], memory, memory.dom().len());
        let o = valued(exprs[from], memory);
        if o.result is Ok {
            lemma_stated_keeps_names(exprs, from + 1, o.memory);
        }
    }
}

/// A function that runs without error keeps every name that was bound and
/// binds each name it declares.
proof fn lemma_called_binds(f: FunctionModel, memory: Bindings)
    requires
        called(f, memory).result is Ok,
    ensures
        forall|n: Seq<char>|
            memory.contains_key(n) ==> #[trigger] called(f, memory).memory.contains_key(n),
        forall|k: int|
            0 <= k < f.vars.len() ==> called(f, memory).memory.contains_key(
                #[trigger] f.vars[k].name,
            ),
{
    lemma_declared_binds(f.vars, 0, memory);
    let o = declared(f.vars, 0, memory);
    lemma_stated_keeps_names(f.exprs, 0, o.memory);
    let end = called(f, memory).memory;
    assert(end.dom() == o.memory.dom());
    assert forall|n: Seq<char>| memory.contains_key(n) implies #[trigger] end.contains_key(n) by {
        assert(o.memory.contains_key(n));
        assert(end.dom().contains(n));
    }
    assert forall|k: int| 0 <= k < f.vars.len() implies end.contains_key(
        #[trigger] f.vars[k].name,
    ) by {
        assert(o.memory.contains_key(f.vars[k].name));
        assert(end.dom().contains(f.vars[k].name));
    }
}

/// After a run without error, every name that was bound before is still
/// bound, and so is every name that any function of the program declares:
/// the functions share one table.
pub proof fn lemma_executed_binds(program: Seq<FunctionModel>, from: int, memory: Bindings)
    requires
        0 <= from,
        executed(program, from, memory).result is Ok,
    ensures
        forall|n: Seq<char>|
            memory.contains_key(n) ==> #[trigger] executed(program, from, memory).memory.contains_key(
                n,
            ),
        forall|i: int, k: int|
            from <= i < program.len() && 0 <= k < program[i].vars.len() ==> executed(
                program,
                from,
                memory,
            ).memory.contains_key(#[trigger] program[i].vars[k].name),
    decreases program.len() - from,
{
    if from < program.len() {
        let o = called(program[from], memory);
        lemma_called_binds(program[from], memory);
        lemma_executed_binds(program, from + 1, o.memory);
        let end = executed(program, from, memory).memory;
        assert forall|n: Seq<char>| memory.contains_key(n) implies #[trigger] end.contains_key(n) by {
            assert(o.memory.contains_key(n));
        }
        assert forall|i: int, k: int|
            from <= i < program.len() && 0 <= k < program[i].vars.len() implies end.contains_key(
            #[trigger] program[i].vars[k].name,
        ) by {
            if i == from {
                assert(o.memory.contains_key(program[from].vars[k].name));
            }
        }
    }
}

/// `e` holds a reference to `name`.
pub open spec fn mentions(e: ExprModel, name: Seq<char>) -> bool
    decreases e,
{
    match e {
        ExprModel::Literal(_) => false,
        ExprModel::Reference(s) => s == name,
        ExprModel::Unary { child, op } => mentions(*child, name),
        ExprModel::Binary { lhs, op, rhs } => mentions(*lhs, name) || mentions(*rhs, name),
    }
}

/// The bindings hold no cycle: `rank` gives every bound name a number
/// above that of each bound name its expression mentions.
pub open spec fn ranked(memory: Bindings, rank: spec_fn(Seq<char>) -> nat) -> bool {
    forall|n: Seq<char>, m: Seq<char>|
        memory.contains_key(n) && #[trigger] mentions(memory[n], m) && memory.contains_key(m)
            ==> rank(m) < rank(n)
}

/// Every bound name that `e` mentions ranks below every name in `chain`.
pub open spec fn below(
    e: ExprModel,
    memory: Bindings,
    rank: spec_fn(Seq<char>) -> nat,
    chain: Set<Seq<char>>,
) -> bool {
    forall|m: Seq<char>, v: Seq<char>|
        #[trigger] mentions(e, m) && memory.contains_key(m) && #[trigger] chain.contains(v)
            ==> rank(m) < rank(v)
}

/// In a table without a cycle, an evaluation that has the names of `chain`
/// under way and enough depth left for all the others never runs out of
/// depth, and leaves a table without a cycle.
proof fn lemma_ranked_evaluation(
    e: ExprModel,
    memory: Bindings,
    depth: nat,
    rank: spec_fn(Seq<char>) -> nat,
    chain: Set<Seq<char>>,
)
    requires
        memory.dom().finite(),
        ranked(memory, rank),
        chain.subset_of(memory.dom()),
        depth + chain.len() >= memory.dom().len(),
        below(e, memory, rank, chain),
    ensures
        evaluated(e, memory, depth).result != Err::<i32, RuntimeError>(
            RuntimeError::CyclicReference,
        ),
        ranked(evaluated(e, memory, depth).memory, rank),
        evaluated(e, memory, depth).memory.dom() == memory.dom(),
    decreases depth, e,
{
    lemma_evaluation_keeps_names(e, memory, depth);
    match e {
        ExprModel::Literal(_) => {},
        ExprModel::Reference(name) => {
            if memory.contains_key(name) {
                assert(mentions(e, name));
                assert(!chain.contains(name));
                let longer = chain.insert(name);
                vstd::set_lib::lemma_len_subset(chain, memory.dom());
                vstd::set_lib::lemma_len_subset(longer, memory.dom());
                assert(longer.len() == chain.len() + 1);
                assert(depth > 0);
                assert forall|m: Seq<char>, v: Seq<char>|
                    #[trigger] mentions(memory[name], m) && memory.contains_key(m)
                        && #[trigger] longer.contains(v) implies rank(m) < rank(v) by {
                    assert(rank(m) < rank(name));
                    if v != name {
                        assert(chain.contains(v));
                    }
                }
                lemma_ranked_evaluation(memory[name], memory, (depth - 1) as nat, rank, longer);
            }
        },
        ExprModel::Unary { child, op } => {
            if op is Add || op is Sub {
                assert forall|m: Seq<char>, v: Seq<char>|
                    #[trigger] mentions(*child, m) && memory.contains_key(m)
                        && #[trigger] chain.contains(v) implies rank(m) < rank(v) by {
                    assert(mentions(e, m));
                }
                lemma_ranked_evaluation(*child, memory, depth, rank, chain);
            }
        },
        ExprModel::Binary { lhs, op, rhs } => {
            assert forall|m: Seq<char>, v: Seq<char>|
                #[trigger] mentions(*lhs, m) && memory.contains_key(m) && #[trigger] chain.contains(
                    v,
                ) implies rank(m) < rank(v) by {
                assert(mentions(e, m));
            }
            match op {
                Operator::Incr | Operator::Decr => match *lhs {
                    ExprModel::Reference(name) => {
                        lemma_ranked_evaluation(*lhs, memory, depth, rank, chain);
                        let o = evaluated(*lhs, memory, depth);
                        let end = evaluated(e, memory, depth).memory;
                        assert forall|n: Seq<char>, m: Seq<char>|
                            end.contains_key(n) && #[trigger] mentions(end[n], m)
                                && end.contains_key(m) implies rank(m) < rank(n) by {
                            if n != name || end == o.memory {
                                assert(end[n] == o.memory[n]);
                                assert(o.memory.contains_key(n) && o.memory.contains_key(m));
                            }
                        }
                    },
                    _ => {},
                },
                Operator::Comp => {},
                _ => {
                    lemma_ranked_evaluation(*lhs, memory, depth, rank, chain);
                    let l = evaluated(*lhs, memory, depth);
                    if l.result is Ok {
                        assert forall|m: Seq<char>, v: Seq<char>|
                            #[trigger] mentions(*rhs, m) && l.memory.contains_key(m)
                                && #[trigger] chain.contains(v) implies rank(m) < rank(v) by {
                            assert(mentions(e, m));
                            assert(memory.dom().contains(m));
                        }
                        lemma_ranked_evaluation(*rhs, l.memory, depth, rank, chain);
                    }
                },
            }
        },
    }
}

/// `CyclicReference` is never a false alarm: against a finite table whose
/// bindings hold no cycle, the evaluation of any expression ends with a
/// value or with another error.
pub proof fn lemma_cycle_is_real(e: ExprModel, memory: Bindings, rank: spec_fn(Seq<char>) -> nat)
    requires
        memory.dom().finite(),
        ranked(memory, rank),
    ensures
        valued(e, memory).result != Err::<i32, RuntimeError>(RuntimeError::CyclicReference),
{
    lemma_ranked_evaluation(e, memory, memory.dom().len(), rank, Set::empty());
}

} // verus!
