//! The failures that parsing, lookup and evaluation can report.

use vstd::prelude::*;
use vstd::string::StringExecFns;

verus! {

/// Why a name could not be resolved.
#[derive(Clone, Copy, Debug, PartialEq, Eq)]
pub enum LookupError {
    /// The name has never been bound.
    NotFound,
}

/// Why evaluation or rendering of an expression stopped.
#[derive(Clone, Copy, Debug, PartialEq, Eq)]
pub enum RuntimeError {
    /// The right-hand side of a division evaluated to zero.
    DivisionByZero,
    /// The expression uses an operator in a position that has no meaning:
    /// the complement operator, a prefix operator other than `+` and `-`, or
    /// an increment or decrement of something that is not a plain name.
    UnsupportedOperator,
    /// A reference names a variable that is not bound.
    Lookup(LookupError),
    /// The exact result does not fit the 32-bit integer type.
    Overflow,
    /// Resolving a reference needed more nested lookups than there are
    /// bound names, so some binding refers back to itself.
    CyclicReference,
}

/// What the parser was looking for when it gave up.
#[derive(Clone, Copy, Debug, PartialEq, Eq)]
pub enum SyntaxKind {
    /// A function must start with the keyword `fn`.
    ExpectedFunction,
    /// An identifier was required.
    ExpectedName,
    /// `(` was required.
    ExpectedOpenParen,
    /// `,` or `)` was required.
    ExpectedCloseParen,
    /// `:` was required.
    ExpectedColon,
    /// `{` was required.
    ExpectedOpenBrace,
    /// The text ended inside a function body.
    ExpectedCloseBrace,
    /// `=` was required.
    ExpectedAssign,
    /// `;` was required.
    ExpectedSemicolon,
    /// An integer literal or a name was required.
    ExpectedOperand,
    /// A character that starts no token.
    UnknownToken,
    /// An integer literal above the largest 32-bit signed value.
    LiteralTooLarge,
    /// A second function named `main`.
    DuplicateEntryPoint,
}

/// Why a source text is not a program.
#[derive(Clone, Copy, Debug, PartialEq, Eq)]
pub enum ParseError {
    /// No function is named `main`.
    MissingEntryPoint,
    /// The text is malformed: what was wrong, and the character offset of
    /// the offending token (the length of the text when it ended early).
    Syntax(SyntaxKind, usize),
}

/// The stage a failed run stopped in, with that stage's own error.
#[derive(Clone, Copy, Debug, PartialEq, Eq)]
pub enum Cause {
    Parse(ParseError),
    Runtime(RuntimeError),
}

/// The single failure channel of a run.
#[derive(Clone, Copy, Debug, PartialEq, Eq)]
pub enum Error {
    /// The program could not be parsed or could not be executed.
    Invalid(Cause),
}

impl LookupError {
    /// The message for this error.
    pub open spec fn message(self) -> Seq<char> {
        "couldn't find referenced variable"@
    }

    /// The message for this error, as text.
    pub fn describe(&self) -> (s: String)
        ensures
            s@ == self.message(),
    {
        String::from_str("couldn't find referenced variable")
    }
}

impl RuntimeError {
    /// The message for this error.
    pub open spec fn message(self) -> Seq<char> {
        match self {
            RuntimeError::DivisionByZero => "division by zero"@,
            RuntimeError::UnsupportedOperator => "unsupported operator"@,
            RuntimeError::Lookup(e) => e.message(),
            RuntimeError::Overflow => "integer overflow"@,
            RuntimeError::CyclicReference => "variable refers to itself"@,
        }
    }

    /// The message for this error, as text.
    pub fn describe(&self) -> (s: String)
        ensures
            s@ == self.message(),
    {
        match self {
            RuntimeError::DivisionByZero => String::from_str("division by zero"),
            RuntimeError::UnsupportedOperator => String::from_str("unsupported operator"),
            RuntimeError::Lookup(e) => e.describe(),
            RuntimeError::Overflow => String::from_str("integer overflow"),
            RuntimeError::CyclicReference => String::from_str("variable refers to itself"),
        }
    }
}

impl SyntaxKind {
    /// The message for this kind of syntax error.
    pub open spec fn message(self) -> Seq<char> {
        match self {
            SyntaxKind::ExpectedFunction => "expected `fn`"@,
            SyntaxKind::ExpectedName => "expected a name"@,
            SyntaxKind::ExpectedOpenParen => "expected `(`"@,
            SyntaxKind::ExpectedCloseParen => "expected `,` or `)`"@,
            SyntaxKind::ExpectedColon => "expected `:`"@,
            SyntaxKind::ExpectedOpenBrace => "expected `{`"@,
            SyntaxKind::ExpectedCloseBrace => "expected `}`"@,
            SyntaxKind::ExpectedAssign => "expected `=`"@,
            SyntaxKind::ExpectedSemicolon => "expected `;`"@,
            SyntaxKind::ExpectedOperand => "expected a number or a name"@,
            SyntaxKind::UnknownToken => "unknown token"@,
            SyntaxKind::LiteralTooLarge => "integer literal too large"@,
            SyntaxKind::DuplicateEntryPoint => "more than one `main` function"@,
        }
    }

    /// The message for this kind of syntax error, as text.
    pub fn describe(&self) -> (s: String)
        ensures
            s@ == self.message(),
    {
        match self {
            SyntaxKind::ExpectedFunction => String::from_str("expected `fn`"),
            SyntaxKind::ExpectedName => String::from_str("expected a name"),
            SyntaxKind::ExpectedOpenParen => String::from_str("expected `(`"),
            SyntaxKind::ExpectedCloseParen => String::from_str("expected `,` or `)`"),
            SyntaxKind::ExpectedColon => String::from_str("expected `:`"),
            SyntaxKind::ExpectedOpenBrace => String::from_str("expected `{`"),
            SyntaxKind::ExpectedCloseBrace => String::from_str("expected `}`"),
            SyntaxKind::ExpectedAssign => String::from_str("expected `=`"),
            SyntaxKind::ExpectedSemicolon => String::from_str("expected `;`"),
            SyntaxKind::ExpectedOperand => String::from_str("expected a number or a name"),
            SyntaxKind::UnknownToken => String::from_str("unknown token"),
            SyntaxKind::LiteralTooLarge => String::from_str("integer literal too large"),
            SyntaxKind::DuplicateEntryPoint => String::from_str("more than one `main` function"),
        }
    }
}

impl ParseError {
    /// The message for this error; the offset of a syntax error is kept in
    /// the value, not in the text.
    pub open spec fn message(self) -> Seq<char> {
        match self {
            ParseError::MissingEntryPoint => "no `main` function"@,
            ParseError::Syntax(kind, _) => kind.message(),
        }
    }

    /// The message for this error, as text.
    pub fn describe(&self) -> (s: String)
        ensures
            s@ == self.message(),
    {
        match self {
            ParseError::MissingEntryPoint => String::from_str("no `main` function"),
            ParseError::Syntax(kind, _) => kind.describe(),
        }
    }
}

impl Error {
    /// The stage and error that this failure came from.
    pub open spec fn cause_of(self) -> Cause {
        match self {
            Error::Invalid(c) => c,
        }
    }

    /// The stage and error that this failure came from.
    pub fn cause(&self) -> (c: Cause)
        ensures
            c == self.cause_of(),
    {
        match self {
            Error::Invalid(c) => *c,
        }
    }

    /// The message for this failure: that of the parse or runtime error
    /// inside it.
    pub open spec fn message(self) -> Seq<char> {
        match self {
            Error::Invalid(Cause::Parse(e)) => e.message(),
            Error::Invalid(Cause::Runtime(e)) => e.message(),
        }
    }

    /// The message for this failure, as text.
    pub fn describe(&self) -> (s: String)
        ensures
            s@ == self.message(),
    {
        match self {
            Error::Invalid(Cause::Parse(e)) => e.describe(),
            Error::Invalid(Cause::Runtime(e)) => e.describe(),
        }
    }
}

} // verus!
