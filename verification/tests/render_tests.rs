use minilang::ast::{Expr, Function, Operator, Var};
use minilang::error::RuntimeError;
use minilang::text::{chars_of, push_digits, render_int, text_of};

fn lit(n: i32) -> Box<Expr> {
    Box::new(Expr::Literal(n))
}

fn name(s: &str) -> Box<Expr> {
    Box::new(Expr::Reference(String::from(s)))
}

fn text(e: &Expr) -> String {
    e.render().unwrap()
}

#[test]
fn literals_render_as_decimal() {
    assert_eq!(text(&Expr::Literal(0)), "0");
    assert_eq!(text(&Expr::Literal(7)), "7");
    assert_eq!(text(&Expr::Literal(10)), "10");
    assert_eq!(text(&Expr::Literal(-5)), "-5");
    assert_eq!(text(&Expr::Literal(1234567890)), "1234567890");
    assert_eq!(text(&Expr::Literal(i32::MAX)), "2147483647");
    assert_eq!(text(&Expr::Literal(i32::MIN)), "-2147483648");
    assert_eq!(render_int(-100), "-100");
}

#[test]
fn push_digits_appends() {
    let mut s = String::from("n=");
    push_digits(&mut s, 4294967295);
    assert_eq!(s, "n=4294967295");
    push_digits(&mut s, 0);
    assert_eq!(s, "n=42949672950");
}

#[test]
fn references_render_as_their_name() {
    assert_eq!(text(&*name("total")), "total");
}

#[test]
fn prefix_operators_render() {
    assert_eq!(text(&Expr::Unary { child: name("x"), op: Operator::Add }), "x");
    assert_eq!(text(&Expr::Unary { child: name("x"), op: Operator::Sub }), "-x");
    assert_eq!(text(&Expr::Unary { child: lit(-3), op: Operator::Sub }), "--3");
    for op in [Operator::Mul, Operator::Div, Operator::Incr, Operator::Decr, Operator::Comp] {
        assert_eq!(
            Expr::Unary { child: name("x"), op }.render(),
            Err(RuntimeError::UnsupportedOperator)
        );
    }
}

#[test]
fn binary_operators_render() {
    let e = |op: Operator| Expr::Binary { lhs: lit(1), op, rhs: name("b") };
    assert_eq!(text(&e(Operator::Add)), "1 + b");
    assert_eq!(text(&e(Operator::Sub)), "1 - b");
    assert_eq!(text(&e(Operator::Mul)), "1 * b");
    assert_eq!(text(&e(Operator::Div)), "1 / b");
    assert_eq!(text(&e(Operator::Incr)), "1");
    assert_eq!(text(&e(Operator::Decr)), "1--");
    assert_eq!(text(&e(Operator::Comp)), "!1");
}

#[test]
fn nested_expressions_render() {
    let inner = Expr::Binary { lhs: lit(1), op: Operator::Add, rhs: lit(2) };
    let outer = Expr::Binary { lhs: Box::new(inner), op: Operator::Mul, rhs: name("x") };
    assert_eq!(text(&outer), "1 + 2 * x");
}

#[test]
fn an_unsupported_part_fails_the_whole() {
    let bad = || Box::new(Expr::Unary { child: lit(1), op: Operator::Comp });
    assert_eq!(
        Expr::Binary { lhs: bad(), op: Operator::Add, rhs: lit(2) }.render(),
        Err(RuntimeError::UnsupportedOperator)
    );
    assert_eq!(
        Expr::Binary { lhs: lit(2), op: Operator::Add, rhs: bad() }.render(),
        Err(RuntimeError::UnsupportedOperator)
    );
    assert_eq!(text(&Expr::Binary { lhs: lit(2), op: Operator::Incr, rhs: bad() }), "2");
    assert_eq!(
        Expr::Unary { child: bad(), op: Operator::Sub }.render(),
        Err(RuntimeError::UnsupportedOperator)
    );
}

#[test]
fn operators_render_as_their_symbol() {
    assert_eq!(Operator::Add.render(), "+");
    assert_eq!(Operator::Sub.render(), "-");
    assert_eq!(Operator::Mul.render(), "*");
    assert_eq!(Operator::Div.render(), "/");
    assert_eq!(Operator::Incr.render(), "++");
    assert_eq!(Operator::Decr.render(), "--");
    assert_eq!(Operator::Comp.render(), "!");
}

#[test]
fn declarations_render() {
    let var = |expr: Expr| Var { name: String::from("s"), expr };
    assert_eq!(var(Expr::Literal(2)).render().unwrap(), "let s = 2");
    assert_eq!(var(*name("t")).render().unwrap(), "let s = t");
    assert_eq!(
        var(Expr::Binary { lhs: lit(1), op: Operator::Add, rhs: lit(2) }).render().unwrap(),
        "let s = 1 + 2"
    );
    assert_eq!(
        var(Expr::Binary { lhs: name("t"), op: Operator::Incr, rhs: lit(1) }).render().unwrap(),
        "let s = t ++ 1"
    );
    assert_eq!(
        var(Expr::Unary { child: lit(2), op: Operator::Sub }).render().unwrap(),
        "let s = 2-"
    );
    assert_eq!(
        var(Expr::Unary { child: lit(2), op: Operator::Comp }).render().unwrap(),
        "let s = 2!"
    );
    let bad = Box::new(Expr::Unary { child: lit(1), op: Operator::Comp });
    assert_eq!(
        var(Expr::Unary { child: bad, op: Operator::Sub }).render(),
        Err(RuntimeError::UnsupportedOperator)
    );
}

#[test]
fn clones_are_equal() {
    let e = Expr::Binary { lhs: name("a"), op: Operator::Div, rhs: lit(3) };
    assert_eq!(e.clone(), e);
    let v = Var { name: String::from("s"), expr: e };
    assert_eq!(v.clone(), v);
    assert_eq!(Operator::Comp.clone(), Operator::Comp);
}

#[test]
fn chars_and_text_round_trip() {
    let chars = chars_of("let é = 1");
    assert_eq!(chars.len(), 9);
    assert_eq!(chars[4], 'é');
    assert_eq!(text_of(&chars, 0, 3), "let");
    assert_eq!(text_of(&chars, 4, 5), "é");
    assert_eq!(text_of(&chars, 9, 9), "");
}

#[test]
fn functions_render_as_source_like_text() {
    let f = Function {
        name: String::from("main"),
        args: String::from("a: int"),
        vars: vec![
            Var { name: String::from("s"), expr: Expr::Literal(2) },
            Var {
                name: String::from("t"),
                expr: Expr::Binary { lhs: name("s"), op: Operator::Mul, rhs: lit(3) },
            },
        ],
        exprs: vec![Expr::Binary { lhs: name("s"), op: Operator::Decr, rhs: lit(1) }],
        ret: 0,
    };
    assert_eq!(f.render().unwrap(), "fn main(a: int) { let s = 2; let t = s * 3; s--; }");
    let empty =
        Function { name: String::from("f"), args: String::new(), vars: vec![], exprs: vec![], ret: 0 };
    assert_eq!(empty.render().unwrap(), "fn f() { }");
    let bad = Function {
        name: String::from("f"),
        args: String::new(),
        vars: vec![],
        exprs: vec![Expr::Unary { child: lit(1), op: Operator::Comp }],
        ret: 0,
    };
    assert_eq!(bad.render(), Err(RuntimeError::UnsupportedOperator));
}
