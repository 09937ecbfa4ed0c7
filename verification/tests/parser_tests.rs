use minilang::ast::{Expr, Function, Operator, Var};
use minilang::error::{ParseError, SyntaxKind};
use minilang::parser::CodeParser;

fn parse(source: &str) -> Result<Vec<Function>, ParseError> {
    CodeParser::default().parse(source)
}

fn lit(n: i32) -> Box<Expr> {
    Box::new(Expr::Literal(n))
}

fn name(s: &str) -> Box<Expr> {
    Box::new(Expr::Reference(String::from(s)))
}

fn let_(n: &str, expr: Expr) -> Var {
    Var { name: String::from(n), expr }
}

fn function(n: &str, args: &str, vars: Vec<Var>, exprs: Vec<Expr>) -> Function {
    Function { name: String::from(n), args: String::from(args), vars, exprs, ret: 0 }
}

fn body_of_main(body: &str) -> Function {
    let source = format!("fn main(){{{}}}", body);
    let mut fns = parse(&source).unwrap();
    assert_eq!(fns.len(), 1);
    fns.remove(0)
}

fn syntax(kind: SyntaxKind, at: usize) -> Result<Vec<Function>, ParseError> {
    Err(ParseError::Syntax(kind, at))
}

#[test]
fn a_single_function_parses() {
    assert_eq!(
        parse("fn main(){let s = 2;}"),
        Ok(vec![function("main", "", vec![let_("s", Expr::Literal(2))], vec![])])
    );
}

#[test]
fn main_is_first_wherever_it_stands() {
    let expected = vec![
        function("main", "", vec![let_("s", Expr::Literal(2))], vec![]),
        function("foo", "name: int", vec![let_("p", Expr::Literal(2))], vec![]),
    ];
    let a = parse("fn main(){let s=2;} fn foo(name:int){let p=2;}");
    let b = parse("fn foo(name:int){let p=2;} fn main(){let s=2;}");
    assert_eq!(a, Ok(expected));
    assert_eq!(a, b);
}

#[test]
fn the_other_functions_keep_their_order() {
    let names = |source: &str| -> Vec<String> {
        parse(source).unwrap().into_iter().map(|f| f.name).collect()
    };
    assert_eq!(names("fn a(){} fn b(){} fn main(){} fn c(){}"), ["main", "a", "b", "c"]);
    assert_eq!(names("fn a(){} fn main(){} fn b(){} fn c(){}"), ["main", "a", "b", "c"]);
    assert_eq!(names("fn main(){} fn a(){} fn b(){} fn c(){}"), ["main", "a", "b", "c"]);
    assert_eq!(names("fn c(){} fn b(){} fn a(){} fn main(){}"), ["main", "c", "b", "a"]);
    assert_eq!(names("fn a(){} fn a(){} fn main(){}"), ["main", "a", "a"]);
}

#[test]
fn the_same_text_parses_to_equal_trees() {
    let source = "fn foo(a:int){let p = a * 2; p--;} fn main(){let s = 1 + 2; s++;}";
    let first = parse(source);
    let second = parse(source);
    assert!(first.is_ok());
    assert_eq!(first, second);
    let bad = "fn main(){let s = ;}";
    assert_eq!(parse(bad), parse(bad));
}

#[test]
fn rendering_of_equal_trees_is_equal() {
    let a = parse("fn main(){let s=2; s--;} fn foo(name:int){let p=2*s;}").unwrap();
    let b = parse("fn foo( name : int ) { let p = 2 * s ; }  fn main() { let s = 2 ; s -- ; }")
        .unwrap();
    assert_eq!(a, b);
    assert_eq!(a[0].vars[0].render().unwrap(), "let s = 2");
    assert_eq!(a[0].exprs[0].render().unwrap(), "s--");
    assert_eq!(a[1].vars[0].render().unwrap(), "let p = 2 * s");
    for (f, g) in a.iter().zip(b.iter()) {
        for (v, w) in f.vars.iter().zip(g.vars.iter()) {
            assert_eq!(v.render(), w.render());
        }
        for (e, d) in f.exprs.iter().zip(g.exprs.iter()) {
            assert_eq!(e.render(), d.render());
        }
    }
}

#[test]
fn a_source_without_main_has_no_entry_point() {
    assert_eq!(parse(""), Err(ParseError::MissingEntryPoint));
    assert_eq!(parse("   "), Err(ParseError::MissingEntryPoint));
    assert_eq!(parse("let s = 2;"), Err(ParseError::MissingEntryPoint));
    assert_eq!(parse("fn foo(){let s = 2;}"), Err(ParseError::MissingEntryPoint));
    assert_eq!(parse("fn Main(){}"), Err(ParseError::MissingEntryPoint));
    assert_eq!(parse("fn main2(){}"), Err(ParseError::MissingEntryPoint));
    assert_eq!(parse("fn mai(){}"), Err(ParseError::MissingEntryPoint));
    assert_eq!(parse("main(){}"), Err(ParseError::MissingEntryPoint));
    assert_eq!(parse("fn foo(){ main++; }"), Err(ParseError::MissingEntryPoint));
    assert_eq!(parse("fn foo(){ @ "), Err(ParseError::MissingEntryPoint));
}

#[test]
fn a_malformed_source_with_main_is_a_syntax_error() {
    assert_eq!(parse("fn main"), syntax(SyntaxKind::ExpectedOpenParen, 7));
    assert_eq!(parse("fn main("), syntax(SyntaxKind::ExpectedName, 8));
    assert_eq!(parse("fn main()"), syntax(SyntaxKind::ExpectedOpenBrace, 9));
    assert_eq!(parse("fn main(){"), syntax(SyntaxKind::ExpectedCloseBrace, 10));
    assert_eq!(parse("fn main(){let s = 2;"), syntax(SyntaxKind::ExpectedCloseBrace, 20));
    assert_eq!(parse("fn main(){let s = 2}"), syntax(SyntaxKind::ExpectedSemicolon, 19));
    assert_eq!(parse("fn main(){let = 2;}"), syntax(SyntaxKind::ExpectedName, 14));
    assert_eq!(parse("fn main(){let s 2;}"), syntax(SyntaxKind::ExpectedAssign, 16));
    assert_eq!(parse("fn main(){let s = ;}"), syntax(SyntaxKind::ExpectedOperand, 18));
    assert_eq!(parse("fn main(){let s = 1 + ;}"), syntax(SyntaxKind::ExpectedOperand, 22));
    assert_eq!(parse("fn main(){1 2;}"), syntax(SyntaxKind::ExpectedSemicolon, 12));
    assert_eq!(parse("fn main(){s++ ++;}"), syntax(SyntaxKind::ExpectedSemicolon, 14));
    assert_eq!(parse("fn main(){}}"), syntax(SyntaxKind::ExpectedFunction, 11));
    assert_eq!(parse("fn main(){} garbage"), syntax(SyntaxKind::ExpectedFunction, 12));
    assert_eq!(parse("let s = 2; fn main(){}"), syntax(SyntaxKind::ExpectedFunction, 0));
    assert_eq!(parse("fn main(){ fn foo(){} }"), syntax(SyntaxKind::ExpectedOperand, 11));
    assert_eq!(parse("fn let(){} fn main(){}"), syntax(SyntaxKind::ExpectedName, 3));
    assert_eq!(parse("fn foo(){} fn main(){"), syntax(SyntaxKind::ExpectedCloseBrace, 21));
}

#[test]
fn malformed_parameters_are_syntax_errors() {
    assert_eq!(parse("fn main(a){}"), syntax(SyntaxKind::ExpectedColon, 9));
    assert_eq!(parse("fn main(a:){}"), syntax(SyntaxKind::ExpectedName, 10));
    assert_eq!(parse("fn main(a:int b:int){}"), syntax(SyntaxKind::ExpectedCloseParen, 14));
    assert_eq!(parse("fn main(a:int,){}"), syntax(SyntaxKind::ExpectedName, 14));
    assert_eq!(parse("fn main(,){}"), syntax(SyntaxKind::ExpectedName, 8));
    assert_eq!(parse("fn main(1:int){}"), syntax(SyntaxKind::ExpectedName, 8));
}

#[test]
fn an_unknown_character_is_reported_where_it_stands() {
    assert_eq!(parse("fn main(){let s = @;}"), syntax(SyntaxKind::UnknownToken, 18));
    assert_eq!(parse("fn main(){let s = !t;}"), syntax(SyntaxKind::UnknownToken, 18));
    assert_eq!(parse("fn main()#{}"), syntax(SyntaxKind::UnknownToken, 9));
    assert_eq!(parse("fn main(){} é"), syntax(SyntaxKind::UnknownToken, 12));
    assert_eq!(parse("é fn main(){}"), syntax(SyntaxKind::UnknownToken, 0));
}

#[test]
fn a_literal_must_fit_32_bits() {
    assert_eq!(
        body_of_main("let s = 2147483647;").vars,
        vec![let_("s", Expr::Literal(2147483647))]
    );
    assert_eq!(
        parse("fn main(){let s = 2147483648;}"),
        syntax(SyntaxKind::LiteralTooLarge, 18)
    );
    assert_eq!(
        parse("fn main(){let s = 99999999999999999999999999;}"),
        syntax(SyntaxKind::LiteralTooLarge, 18)
    );
    assert_eq!(
        parse("fn main(){let s = -2147483648;}"),
        syntax(SyntaxKind::LiteralTooLarge, 19)
    );
    assert_eq!(body_of_main("let s = 007;").vars, vec![let_("s", Expr::Literal(7))]);
}

#[test]
fn a_second_main_is_rejected_at_its_name() {
    assert_eq!(parse("fn main(){} fn main(){}"), syntax(SyntaxKind::DuplicateEntryPoint, 15));
    assert_eq!(
        parse("fn main(){} fn foo(){} fn main("),
        syntax(SyntaxKind::DuplicateEntryPoint, 26)
    );
    assert_eq!(parse("fn main(){ fn main(){}"), syntax(SyntaxKind::ExpectedOperand, 11));
}

#[test]
fn parameters_are_kept_as_text() {
    let args = |source: &str| parse(source).unwrap().remove(0).args;
    assert_eq!(args("fn main(){}"), "");
    assert_eq!(args("fn main( ){}"), "");
    assert_eq!(args("fn main(a:int){}"), "a: int");
    assert_eq!(args("fn main(  a  :  int  ){}"), "a: int");
    assert_eq!(args("fn main(a:int,b:bool,c_1:T){}"), "a: int, b: bool, c_1: T");
}

#[test]
fn declarations_and_statements_go_to_their_own_lists() {
    let f = body_of_main("s++; let s = 2; t--; let t = s;");
    assert_eq!(f.vars, vec![let_("s", Expr::Literal(2)), let_("t", *name("s"))]);
    assert_eq!(
        f.exprs,
        vec![
            Expr::Binary { lhs: name("s"), op: Operator::Incr, rhs: lit(1) },
            Expr::Binary { lhs: name("t"), op: Operator::Decr, rhs: lit(1) },
        ]
    );
    assert_eq!(f.ret, 0);
    let empty = body_of_main("");
    assert!(empty.vars.is_empty() && empty.exprs.is_empty());
}

#[test]
fn binary_operators_group_to_the_left() {
    let add = Expr::Binary { lhs: lit(1), op: Operator::Add, rhs: lit(2) };
    let mul = Expr::Binary { lhs: Box::new(add), op: Operator::Mul, rhs: lit(3) };
    let div = Expr::Binary { lhs: Box::new(mul), op: Operator::Div, rhs: name("x") };
    let sub = Expr::Binary { lhs: Box::new(div), op: Operator::Sub, rhs: lit(4) };
    assert_eq!(body_of_main("1 + 2 * 3 / x - 4;").exprs, vec![sub]);
}

#[test]
fn signs_and_postfix_operators_nest() {
    let incr = |target: Box<Expr>| Expr::Binary { lhs: target, op: Operator::Incr, rhs: lit(1) };
    let decr = |target: Box<Expr>| Expr::Binary { lhs: target, op: Operator::Decr, rhs: lit(1) };
    assert_eq!(
        body_of_main("-s;").exprs,
        vec![Expr::Unary { child: name("s"), op: Operator::Sub }]
    );
    assert_eq!(
        body_of_main("+5;").exprs,
        vec![Expr::Unary { child: lit(5), op: Operator::Add }]
    );
    assert_eq!(
        body_of_main("-s++;").exprs,
        vec![Expr::Unary { child: Box::new(incr(name("s"))), op: Operator::Sub }]
    );
    assert_eq!(body_of_main("2--;").exprs, vec![decr(lit(2))]);
    assert_eq!(
        body_of_main("a++ + b;").exprs,
        vec![Expr::Binary { lhs: Box::new(incr(name("a"))), op: Operator::Add, rhs: name("b") }]
    );
    assert_eq!(
        body_of_main("a+++b;").exprs,
        vec![Expr::Binary { lhs: Box::new(incr(name("a"))), op: Operator::Add, rhs: name("b") }]
    );
    assert_eq!(
        body_of_main("a - -b;").exprs,
        vec![Expr::Binary {
            lhs: name("a"),
            op: Operator::Sub,
            rhs: Box::new(Expr::Unary { child: name("b"), op: Operator::Sub }),
        }]
    );
    assert_eq!(parse("fn main(){a--b;}"), syntax(SyntaxKind::ExpectedSemicolon, 13));
    assert_eq!(parse("fn main(){++a;}"), syntax(SyntaxKind::ExpectedOperand, 10));
}

#[test]
fn whitespace_only_separates_tokens() {
    let dense = parse("fn main(a:int){let s=1+2;s++;}");
    let airy = parse("\n fn\tmain ( a : int )\r\n{ let  s = 1 + 2 ;\n s ++ ; }\n");
    assert!(dense.is_ok());
    assert_eq!(dense, airy);
    assert_eq!(parse("fnmain(){}"), Err(ParseError::MissingEntryPoint));
    assert_eq!(parse("fn main(){lets = 2;}"), syntax(SyntaxKind::ExpectedSemicolon, 15));
}

#[test]
fn keywords_are_not_names() {
    assert_eq!(parse("fn main(){let fn = 2;}"), syntax(SyntaxKind::ExpectedName, 14));
    assert_eq!(parse("fn main(){let s = let;}"), syntax(SyntaxKind::ExpectedOperand, 18));
    assert_eq!(body_of_main("let fnx = 2;").vars, vec![let_("fnx", Expr::Literal(2))]);
    assert_eq!(body_of_main("let _let = 2;").vars, vec![let_("_let", Expr::Literal(2))]);
    assert_eq!(body_of_main("let main = 2;").vars, vec![let_("main", Expr::Literal(2))]);
}

#[test]
fn programs_that_differ_in_the_place_of_main_render_alike() {
    let render = |source: &str| -> Vec<String> {
        parse(source).unwrap().iter().map(|f| f.render().unwrap()).collect()
    };
    let a = render("fn main(){let s=2;} fn foo(name:int){let p=2;}");
    let b = render("fn foo(name:int){let p=2;} fn main(){let s=2;}");
    assert_eq!(a, ["fn main() { let s = 2; }", "fn foo(name: int) { let p = 2; }"]);
    assert_eq!(a, b);
}

#[test]
fn whatever_parses_renders() {
    let sources = [
        "fn main(){}",
        "fn main(a:int){let s = -1 + +2 * x / 4 - y; s++; s--; -s++; 2--;}",
        "fn foo(){let a = b++ + c--;} fn main(){let b = 1; let c = -b;}",
    ];
    for source in sources {
        for f in parse(source).unwrap() {
            assert!(f.render().is_ok());
            assert!(f.vars.iter().all(|v| v.render().is_ok() && v.expr.render().is_ok()));
            assert!(f.exprs.iter().all(|e| e.render().is_ok()));
        }
    }
    assert_eq!(
        parse(sources[1]).unwrap()[0].render().unwrap(),
        "fn main(a: int) { let s = -1 + 2 * x / 4 - y; s; s--; -s; 2--; }"
    );
}
