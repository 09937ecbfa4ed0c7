//! A small imperative language, parsed and executed directly from its syntax
//! tree.
//!
//! A program is a list of functions. A function body holds integer `let`
//! declarations and statements; expressions are literals, names, the four
//! arithmetic operators, a prefix sign, and postfix `++` and `--`. There is
//! one integer type, no control flow, and no call: running a program runs
//! the body of every function, the one named `main` first.
//!
//! * [`text`]: characters, decimal numerals, building strings.
//! * [`lexer`]: source text to tokens.
//! * [`ast`]: the syntax tree, its model, and its canonical text.
//! * [`parser`]: tokens to functions, `main` first.
//! * [`memory`]: the symbol table of named expressions.
//! * [`eval`]: what expressions and programs compute.
//! * [`interpreter`]: from source text to the outcome of a run.
//! * [`error`]: what can go wrong, by kind.
//! * [`laws`]: theorems about the above.
//!
//! Three choices go beyond the grammar. Binary operators have a single
//! precedence and group to the left. Arithmetic is exact on 32-bit values: a
//! result that does not fit is the error `Overflow`, never a wrapped value.
//! A variable is bound to its initializer expression, not to a value, and is
//! evaluated again at each use; a chain of such lookups longer than the
//! number of bound names can only come from bindings that refer back to
//! themselves, and is the error `CyclicReference`.

pub mod ast;
pub mod error;
pub mod eval;
pub mod interpreter;
pub mod laws;
pub mod lexer;
pub mod memory;
pub mod parser;
pub mod text;
