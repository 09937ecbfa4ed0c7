//! The driver: from source text to the outcome of a run.

use crate::ast::{ExprModel, Function, FunctionModel};
use crate::error::{Cause, Error, ParseError};
use crate::eval::{Eval, executed};
use crate::parser::{CodeParser, modeled, program};
use crate::text::chars_of;
use vstd::prelude::*;

verus! {

/// A character that ends a line.
pub open spec fn line_break(c: char) -> bool {
    c == '\r' || c == '\n'
}

/// The text with its line breaks taken out: the lines of a source are
/// joined end to end before it is parsed.
pub open spec fn joined(src: Seq<char>) -> Seq<char> {
    src.filter(|c: char| !line_break(c))
}

/// Takes the line breaks out of a source text.
pub fn join_lines(source: &str) -> (text: String)
    ensures
        text@ == joined(source@),
{
    let src = chars_of(source);
    let mut text = String::new();
    let mut i: usize = 0;
    proof {
        reveal(Seq::filter);
        assert(src@.take(0) =~= Seq::<char>::empty());
    }
    while i < src.len()
        invariant
            i <= src.len(),
            text@ == joined(src@.take(i as int)),
        decreases src.len() - i,
    {
        let c = src[i];
        proof {
            reveal(Seq::filter);
            let next = src@.take(i + 1);
            assert(next.drop_last() =~= src@.take(i as int));
            assert(next.last() == c);
        }
        if c != '\r' && c != '\n' {
            text.push(c);
        }
        i += 1;
    }
    assert(src@.take(src.len() as int) =~= src@);
    text
}

/// Something that turns a parsed program, or the failure to parse one, into
/// an output.
pub trait Compile {
    type Output;

    /// The output for a parse result, given as models.
    spec fn outcome(ast: Result<Seq<FunctionModel>, ParseError>) -> Self::Output;

    /// The output for a parse result.
    fn from_ast(ast: Result<Vec<Function>, ParseError>) -> (out: Self::Output)
        ensures
            out == Self::outcome(modeled(ast)),
    ;

    /// The output for a source text: its line breaks are taken out, the
    /// rest is parsed, and the parse result is handed to `from_ast`. Line
    /// breaks are removed, not replaced, so a word broken across two lines
    /// is one word, and the offset in a syntax error counts the characters
    /// of the joined text.
    fn from_source(source: &str) -> (out: Self::Output)
        ensures
            out == Self::outcome(program(joined(source@))),
    {
        let parser = CodeParser::default();
        let text = join_lines(source);
        let ast = parser.parse(text.as_str());
        Self::from_ast(ast)
    }
}

/// Runs a program directly from its syntax tree.
pub struct Interpreter;

impl Compile for Interpreter {
    type Output = Result<i32, Error>;

    /// A program that did not parse is invalid for that reason. One that
    /// did is executed against an empty symbol table, every function in
    /// order: the status code on success, and the first runtime error as
    /// the reason otherwise.
    open spec fn outcome(ast: Result<Seq<FunctionModel>, ParseError>) -> Result<i32, Error> {
        match ast {
            Ok(fns) => match executed(fns, 0, Map::<Seq<char>, ExprModel>::empty()).result {
                Ok(code) => Ok(code),
                Err(e) => Err(Error::Invalid(Cause::Runtime(e))),
            },
            Err(e) => Err(Error::Invalid(Cause::Parse(e))),
        }
    }

    fn from_ast(ast: Result<Vec<Function>, ParseError>) -> (out: Result<i32, Error>) {
        match ast {
            Ok(fns) => {
                let mut evaluator = Eval::default();
                match evaluator.execute(&fns) {
                    Ok(code) => Ok(code),
                    Err(e) => Err(Error::Invalid(Cause::Runtime(e))),
                }
            },
            Err(e) => Err(Error::Invalid(Cause::Parse(e))),
        }
    }
}

} // verus!
