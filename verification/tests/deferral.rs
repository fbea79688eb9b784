use quilon::ast::{Expr, FunctionDecl, InterpPart, Item, MatchArm, Program, Span, Statement, VarDecl};
use quilon::deferral::{analyze, references_at_primitive};

fn span() -> Span {
    Span { line: 1, column: 1 }
}

fn ident(name: &str) -> Expr {
    Expr::Ident { name: name.to_string() }
}

fn num(literal: &str) -> Expr {
    Expr::Number { literal: literal.to_string() }
}

fn call(func: &str, args: Vec<Expr>) -> Expr {
    Expr::Call { func: Box::new(ident(func)), args }
}

fn binop(op: &str, left: Expr, right: Expr) -> Expr {
    Expr::BinOp { op: op.to_string(), left: Box::new(left), right: Box::new(right) }
}

fn function(name: &str, body: Expr) -> Item {
    Item::FunctionDecl(FunctionDecl { name: name.to_string(), params: vec![], body, span: span() })
}

fn uses_deferral(items: Vec<Item>) -> bool {
    analyze(&Program { items }).uses_deferral
}

// `^ = () -> Num => 1 + 2 * 3`
#[test]
fn pure_program_uses_no_deferral() {
    let body = binop("+", num("1"), binop("*", num("2"), num("3")));
    assert!(!uses_deferral(vec![function("^", body)]));
}

// `^ = () -> $ => <\n  @sleep(1)\n  $\n>`
#[test]
fn a_sleep_call_marks_deferral() {
    let body = Expr::Block {
        stmts: vec![Statement::Expr(call("@sleep", vec![num("1")])), Statement::Expr(Expr::Unit)],
    };
    assert!(uses_deferral(vec![function("^", body)]));
}

// `nap = () -> $ => @sleep(1)\n^ = () -> $ => nap()`
#[test]
fn sleep_reached_through_a_helper_marks_deferral() {
    let nap = function("nap", call("@sleep", vec![num("1")]));
    let entry = function("^", call("nap", vec![]));
    assert!(uses_deferral(vec![nap, entry]));
}

// `^ = () -> $ => 1 |> @sleep`
#[test]
fn sleep_piped_in_still_marks_deferral() {
    let body = Expr::Pipeline { left: Box::new(num("1")), right: Box::new(ident("@sleep")) };
    assert!(uses_deferral(vec![function("^", body)]));
}

#[test]
fn empty_program_uses_no_deferral() {
    assert!(!uses_deferral(vec![]));
}

#[test]
fn at_in_a_variable_value_marks_deferral() {
    let item = Item::VarDecl(VarDecl {
        name: "x".to_string(),
        mutable: false,
        value: call("@read", vec![]),
        span: span(),
    });
    assert!(uses_deferral(vec![item]));
}

#[test]
fn at_inside_nested_forms_is_found() {
    let deep = Expr::If {
        cond: Box::new(Expr::Bool { value: true }),
        then: Box::new(num("1")),
        else_: Box::new(Expr::Match {
            expr: Box::new(ident("r")),
            arms: vec![
                MatchArm { pattern: "Ok".to_string(), body: num("2") },
                MatchArm { pattern: "NotOk".to_string(), body: call("@sleep", vec![num("3")]) },
            ],
        }),
    };
    assert!(references_at_primitive(&deep));
    let interp = Expr::Interpolation {
        parts: vec![InterpPart::Lit("a".to_string()), InterpPart::Hole(ident("@now"))],
    };
    assert!(references_at_primitive(&interp));
    let record = Expr::Record { fields: vec![("a".to_string(), ident("@x"))] };
    assert!(references_at_primitive(&record));
    let lambda = Expr::Lambda { params: vec!["@p".to_string()], body: Box::new(num("1")) };
    assert!(!references_at_primitive(&lambda));
}

#[test]
fn at_in_a_field_name_or_pattern_does_not_count() {
    let access = Expr::FieldAccess { expr: Box::new(ident("p")), field: "@x".to_string() };
    assert!(!references_at_primitive(&access));
    let m = Expr::Match {
        expr: Box::new(ident("r")),
        arms: vec![MatchArm { pattern: "@Ok".to_string(), body: num("1") }],
    };
    assert!(!references_at_primitive(&m));
    let text = Expr::String { value: "@sleep".to_string() };
    assert!(!references_at_primitive(&text));
}

#[test]
fn type_declarations_in_blocks_do_not_count() {
    let block = Expr::Block {
        stmts: vec![
            Statement::Item(Item::TypeDecl(quilon::ast::TypeDecl {
                name: "@T".to_string(),
                span: span(),
            })),
            Statement::Item(function("f", num("1"))),
        ],
    };
    assert!(!references_at_primitive(&block));
}
