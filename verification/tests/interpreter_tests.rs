use minilang::error::{Cause, Error, LookupError, ParseError, RuntimeError, SyntaxKind};
use minilang::interpreter::{join_lines, Compile, Interpreter};

#[test]
fn adding_two_numbers() {
    assert!(Interpreter::from_source("fn main(name: int){let s = 1 + 2;}").is_ok());
}

#[test]
fn subtracting_two_numbers() {
    assert!(Interpreter::from_source("fn main(){let s = 3 - 1;}").is_ok());
}

#[test]
fn increasing_a_number() {
    assert!(Interpreter::from_source("fn main(){let s = 2; s++;}").is_ok());
}

#[test]
fn decreasing_a_number() {
    assert!(Interpreter::from_source("fn main(a:int){let s=3;s--;}").is_ok());
}

#[test]
fn multiplying_two_numbers() {
    assert!(Interpreter::from_source("fn main(){let s = 3*2;}").is_ok());
}

#[test]
fn dividing_two_numbers() {
    assert!(Interpreter::from_source("fn main(){let s = 6/2;}").is_ok());
}

#[test]
fn creating_a_variable() {
    assert!(Interpreter::from_source(
        "fn main(){
        let s = 2;
        }"
    )
    .is_ok());
}

#[test]
fn requiring_a_main() {
    assert!(Interpreter::from_source("").is_err());
    assert!(Interpreter::from_source("let s = 2;").is_err());
    assert!(Interpreter::from_source("fn foo(){let s = 2;}").is_err());
    assert!(Interpreter::from_source("fn main(){let s = 2;}").is_ok());
}

#[test]
fn have_two_functions_in_one_file() {
    assert!(
        Interpreter::from_source("fn main(){let s = 2;} fn foo(name:int){let p = 2;}").is_ok()
    );
}

#[test]
fn guarantee_main_function_is_first() {
    let a = Interpreter::from_source(" fn main(){let s = 2;} fn foo(name:int){let p = 2;}")
        .unwrap();
    let b = Interpreter::from_source("fn foo(name:int){let p = 2;} fn main(){let s = 2;} ")
        .unwrap();
    assert_eq!(a, b);
}

#[test]
fn a_successful_run_returns_status_zero() {
    assert_eq!(Interpreter::from_source("fn main(){let s = 2;}"), Ok(0));
}

#[test]
fn missing_entry_point_keeps_its_category() {
    let missing = Err(Error::Invalid(Cause::Parse(ParseError::MissingEntryPoint)));
    assert_eq!(Interpreter::from_source(""), missing);
    assert_eq!(Interpreter::from_source("let s = 2;"), missing);
    assert_eq!(Interpreter::from_source("fn foo(){let s = 2;}"), missing);
    assert_eq!(Interpreter::from_source("fn foo(){"), missing);
    assert_eq!(Interpreter::from_source("@"), missing);
}

#[test]
fn syntax_error_keeps_its_category_and_position() {
    assert_eq!(
        Interpreter::from_source("fn main(){let s = 2}"),
        Err(Error::Invalid(Cause::Parse(ParseError::Syntax(SyntaxKind::ExpectedSemicolon, 19))))
    );
}

#[test]
fn division_by_zero_is_an_error_not_a_crash() {
    assert_eq!(
        Interpreter::from_source("fn main(){let s = 1/0;}"),
        Err(Error::Invalid(Cause::Runtime(RuntimeError::DivisionByZero)))
    );
}

#[test]
fn a_reference_to_an_unbound_name_fails() {
    assert_eq!(
        Interpreter::from_source("fn main(){let s = t;}"),
        Err(Error::Invalid(Cause::Runtime(RuntimeError::Lookup(LookupError::NotFound))))
    );
}

#[test]
fn a_parameter_is_not_bound() {
    assert_eq!(
        Interpreter::from_source("fn main(a:int){let s = a;}"),
        Err(Error::Invalid(Cause::Runtime(RuntimeError::Lookup(LookupError::NotFound))))
    );
}

#[test]
fn a_declaration_that_names_itself_is_cyclic() {
    assert_eq!(
        Interpreter::from_source("fn main(){let s = s;}"),
        Err(Error::Invalid(Cause::Runtime(RuntimeError::CyclicReference)))
    );
    assert_eq!(
        Interpreter::from_source("fn main(){let a = b; let b = a;}"),
        Err(Error::Invalid(Cause::Runtime(RuntimeError::Lookup(LookupError::NotFound))))
    );
    assert_eq!(
        Interpreter::from_source("fn main(){let b = 1; let a = b; let b = a;}"),
        Err(Error::Invalid(Cause::Runtime(RuntimeError::CyclicReference)))
    );
}

#[test]
fn overflow_is_an_error() {
    assert_eq!(
        Interpreter::from_source("fn main(){let s = 2147483647 + 1;}"),
        Err(Error::Invalid(Cause::Runtime(RuntimeError::Overflow)))
    );
    assert_eq!(
        Interpreter::from_source("fn main(){let s = 2147483647; s++;}"),
        Err(Error::Invalid(Cause::Runtime(RuntimeError::Overflow)))
    );
    assert_eq!(Interpreter::from_source("fn main(){let s = 2147483646; s++;}"), Ok(0));
}

#[test]
fn incrementing_a_literal_is_unsupported() {
    assert_eq!(
        Interpreter::from_source("fn main(){2++;}"),
        Err(Error::Invalid(Cause::Runtime(RuntimeError::UnsupportedOperator)))
    );
}

#[test]
fn the_first_error_ends_the_run() {
    assert_eq!(
        Interpreter::from_source("fn main(){let s = 1/0; let t = u;}"),
        Err(Error::Invalid(Cause::Runtime(RuntimeError::DivisionByZero)))
    );
    assert_eq!(
        Interpreter::from_source("fn main(){let t = u; let s = 1/0;}"),
        Err(Error::Invalid(Cause::Runtime(RuntimeError::Lookup(LookupError::NotFound))))
    );
    assert_eq!(
        Interpreter::from_source("fn foo(){let s = 1/0;} fn main(){let t = u;}"),
        Err(Error::Invalid(Cause::Runtime(RuntimeError::Lookup(LookupError::NotFound))))
    );
}

#[test]
fn a_later_function_sees_the_variables_of_an_earlier_one() {
    assert_eq!(Interpreter::from_source("fn foo(){let p = s;} fn main(){let s = 2;}"), Ok(0));
    assert_eq!(
        Interpreter::from_source("fn main(){let p = s;} fn foo(){let s = 2;}"),
        Err(Error::Invalid(Cause::Runtime(RuntimeError::Lookup(LookupError::NotFound))))
    );
}

#[test]
fn declarations_run_before_statements() {
    assert_eq!(Interpreter::from_source("fn main(){s++; let s = 2;}"), Ok(0));
}

#[test]
fn line_breaks_are_taken_out_before_parsing() {
    assert_eq!(join_lines("a\r\nb\n\nc\r"), "abc");
    assert_eq!(join_lines(""), "");
    assert_eq!(join_lines("fn main(){ }"), "fn main(){ }");
    assert_eq!(Interpreter::from_source("fn main(){\r\n let s = 2;\r\n}\r\n"), Ok(0));
    assert_eq!(Interpreter::from_source("fn main(){let s\n = 2;}"), Ok(0));
    assert_eq!(
        Interpreter::from_source("fn\nmain(){}"),
        Err(Error::Invalid(Cause::Parse(ParseError::MissingEntryPoint)))
    );
}

#[test]
fn from_ast_wraps_a_parse_error() {
    assert_eq!(
        Interpreter::from_ast(Err(ParseError::Syntax(SyntaxKind::ExpectedName, 3))),
        Err(Error::Invalid(Cause::Parse(ParseError::Syntax(SyntaxKind::ExpectedName, 3))))
    );
    assert_eq!(Interpreter::from_ast(Ok(Vec::new())), Ok(0));
}

#[test]
fn errors_describe_themselves() {
    let e = Error::Invalid(Cause::Runtime(RuntimeError::DivisionByZero));
    assert_eq!(e.describe(), "division by zero");
    assert_eq!(e.cause(), Cause::Runtime(RuntimeError::DivisionByZero));
    assert_eq!(RuntimeError::UnsupportedOperator.describe(), "unsupported operator");
    assert_eq!(RuntimeError::Overflow.describe(), "integer overflow");
    assert_eq!(RuntimeError::CyclicReference.describe(), "variable refers to itself");
    assert_eq!(
        RuntimeError::Lookup(LookupError::NotFound).describe(),
        "couldn't find referenced variable"
    );
    assert_eq!(LookupError::NotFound.describe(), "couldn't find referenced variable");
    assert_eq!(ParseError::MissingEntryPoint.describe(), "no `main` function");
    assert_eq!(
        Error::Invalid(Cause::Parse(ParseError::Syntax(SyntaxKind::ExpectedSemicolon, 4)))
            .describe(),
        "expected `;`"
    );
    assert_eq!(SyntaxKind::ExpectedFunction.describe(), "expected `fn`");
    assert_eq!(SyntaxKind::ExpectedName.describe(), "expected a name");
    assert_eq!(SyntaxKind::ExpectedOpenParen.describe(), "expected `(`");
    assert_eq!(SyntaxKind::ExpectedCloseParen.describe(), "expected `,` or `)`");
    assert_eq!(SyntaxKind::ExpectedColon.describe(), "expected `:`");
    assert_eq!(SyntaxKind::ExpectedOpenBrace.describe(), "expected `{`");
    assert_eq!(SyntaxKind::ExpectedCloseBrace.describe(), "expected `}`");
    assert_eq!(SyntaxKind::ExpectedAssign.describe(), "expected `=`");
    assert_eq!(SyntaxKind::ExpectedOperand.describe(), "expected a number or a name");
    assert_eq!(SyntaxKind::UnknownToken.describe(), "unknown token");
    assert_eq!(SyntaxKind::LiteralTooLarge.describe(), "integer literal too large");
    assert_eq!(SyntaxKind::DuplicateEntryPoint.describe(), "more than one `main` function");
}
