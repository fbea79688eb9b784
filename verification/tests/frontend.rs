use quilon::ast::{starts_with_at, Expr, FunctionDecl, Item, Program, Span, Type, TypeDecl, VarDecl};
use quilon::driver::{
    checked, first_at_declaration, has_entry_point, read_failure, reject_at_declarations, render,
    FrontEndError, Severity, TypeTable,
};
use quilon::env::{Environment, TypeError};
use quilon::text::{decimal_text, line_text, spaces_text};

fn span(line: usize, column: usize) -> Span {
    Span { line, column }
}

fn function(name: &str, body: Expr, at: Span) -> Item {
    Item::FunctionDecl(FunctionDecl { name: name.to_string(), params: vec![], body, span: at })
}

fn variable(name: &str, at: Span) -> Item {
    Item::VarDecl(VarDecl { name: name.to_string(), mutable: false, value: Expr::Unit, span: at })
}

fn call(func: &str) -> Expr {
    Expr::Call { func: Box::new(Expr::Ident { name: func.to_string() }), args: vec![] }
}

#[test]
fn decimal_and_spaces_render() {
    assert_eq!(decimal_text(0), "0");
    assert_eq!(decimal_text(9), "9");
    assert_eq!(decimal_text(1203), "1203");
    assert_eq!(spaces_text(3), "   ");
    assert_eq!(spaces_text(0), "");
}

#[test]
fn source_lines_are_one_based() {
    let src = "first\nsecond\n";
    assert_eq!(line_text(src, 1), Some("first".to_string()));
    assert_eq!(line_text(src, 2), Some("second".to_string()));
    assert_eq!(line_text(src, 3), Some(String::new()));
    assert_eq!(line_text(src, 4), None);
    assert_eq!(line_text(src, 0), None);
}

#[test]
fn diagnostics_point_a_caret_at_the_column() {
    let src = "x = 1\ny = oops\n";
    let r = render("main.ql", src, &span(2, 5), Severity::Error, "unknown name `oops`");
    assert_eq!(r, "main.ql:2:5: error: unknown name `oops`\n  | y = oops\n  |     ^");
    let w = render("main.ql", src, &span(1, 1), Severity::Warning, "unused");
    assert_eq!(w, "main.ql:1:1: warning: unused\n  | x = 1\n  | ^");
    // A span beyond the source renders the header alone.
    let far = render("main.ql", src, &span(9, 2), Severity::Error, "eof");
    assert_eq!(far, "main.ql:9:2: error: eof");
}

#[test]
fn front_end_errors_carry_their_rendering() {
    let e = FrontEndError::at("a.ql", "abc", &span(1, 2), "bad");
    assert_eq!(e.rendered(), "a.ql:1:2: error: bad\n  | abc\n  |  ^");
    let p = FrontEndError::plain("import failed".to_string());
    assert_eq!(p.rendered(), "import failed");
    let r = read_failure("missing.ql", "No such file or directory (os error 2)");
    assert_eq!(r.rendered(), "error reading missing.ql: No such file or directory (os error 2)");
}

#[test]
fn at_declarations_are_found_and_rejected() {
    let program = Program {
        items: vec![
            function("main", Expr::Unit, span(1, 1)),
            Item::TypeDecl(TypeDecl { name: "@Hidden".to_string(), span: span(2, 1) }),
            variable("@sleep", span(3, 1)),
            function("@read", Expr::Unit, span(4, 1)),
        ],
    };
    let (at, name) = first_at_declaration(&program).unwrap();
    assert_eq!(*at, span(3, 1));
    assert_eq!(name, "@sleep");
    let src = "main = 1\nHidden = {}\n@sleep = 2\n";
    match reject_at_declarations("p.ql", src, &program) {
        Err(e) => assert_eq!(
            e.rendered(),
            "p.ql:3:1: error: `@sleep` cannot be declared here: `@` marks a built-in IO primitive (like `@sleep` from core.time), which only the corelib defines — user code calls one, it does not declare one\n  | @sleep = 2\n  | ^"
        ),
        Ok(()) => panic!("an @ declaration was accepted"),
    }
    let clean = Program { items: vec![function("main", call("@sleep"), span(1, 1))] };
    assert!(first_at_declaration(&clean).is_none());
    assert!(reject_at_declarations("p.ql", "", &clean).is_ok());
    assert!(starts_with_at(&"@x".to_string()));
    assert!(!starts_with_at(&String::new()));
}

#[test]
fn the_entry_point_is_a_function_named_caret() {
    let with = Program {
        items: vec![variable("^", span(1, 1)), function("^", Expr::Unit, span(2, 1))],
    };
    assert!(has_entry_point(&with));
    let only_var = Program { items: vec![variable("^", span(1, 1))] };
    assert!(!has_entry_point(&only_var));
    let other = Program { items: vec![function("^^", Expr::Unit, span(1, 1))] };
    assert!(!has_entry_point(&other));
    assert!(!has_entry_point(&Program { items: vec![] }));
}

#[test]
fn checked_counts_imported_items_and_deferral() {
    let program = Program {
        items: vec![
            function("nap", call("@sleep"), span(1, 1)),
            function("^", call("nap"), span(2, 1)),
            function("main", Expr::Unit, span(3, 1)),
        ],
    };
    let c = checked(program, 2, TypeTable { entries: vec![(span(1, 1), Type::Num)] }, "src".to_string());
    assert_eq!(c.imported_items, 1);
    assert!(c.defer.uses_deferral);
    assert_eq!(c.source, "src");
    assert_eq!(c.types.entries.len(), 1);
    assert_eq!(c.program.items.len(), 3);
}

#[test]
fn environment_scopes_shadow_and_restore() {
    let mut env = Environment::new();
    assert_eq!(env.depth(), 1);
    assert!(env.define("x".to_string(), Type::Num, false, span(1, 1)).is_ok());
    match env.define("x".to_string(), Type::Text, true, span(2, 3)) {
        Err(TypeError::DuplicateDefinition { name, span: at }) => {
            assert_eq!(name, "x");
            assert_eq!(at, span(2, 3));
        },
        Ok(()) => panic!("redefinition accepted"),
    }
    assert!(matches!(env.get_type("x"), Some(Type::Num)));
    env.push_scope();
    assert_eq!(env.depth(), 2);
    assert!(env.define("x".to_string(), Type::Text, true, span(3, 1)).is_ok());
    assert!(matches!(env.get_type("x"), Some(Type::Text)));
    assert!(env.is_mutable("x"));
    assert_eq!(env.lookup("x").unwrap().span, span(3, 1));
    env.pop_scope();
    assert_eq!(env.depth(), 1);
    assert!(matches!(env.get_type("x"), Some(Type::Num)));
    assert!(!env.is_mutable("x"));
    // The global scope is never popped.
    env.pop_scope();
    assert_eq!(env.depth(), 1);
    assert!(env.lookup("x").is_some());
    assert!(env.lookup("y").is_none());
    assert!(!env.is_mutable("y"));
}

#[test]
fn a_default_environment_is_a_fresh_one() {
    let env = Environment::default();
    assert_eq!(env.depth(), 1);
    assert!(env.lookup("x").is_none());
}

#[test]
fn update_type_retypes_the_innermost_binding() {
    let mut env = Environment::new();
    env.define("f".to_string(), Type::Unit, false, span(1, 1)).unwrap();
    env.define("g".to_string(), Type::Bool, false, span(1, 5)).unwrap();
    env.push_scope();
    env.define("f".to_string(), Type::Num, true, span(2, 1)).unwrap();
    let fn_type = Type::Function { params: vec![Type::Num], ret: Box::new(Type::Num) };
    assert!(env.update_type("f", fn_type));
    assert!(matches!(env.get_type("f"), Some(Type::Function { .. })));
    assert!(env.is_mutable("f"));
    assert_eq!(env.lookup("f").unwrap().span, span(2, 1));
    assert!(matches!(env.get_type("g"), Some(Type::Bool)));
    env.pop_scope();
    assert!(matches!(env.get_type("f"), Some(Type::Unit)));
    assert!(!env.update_type("nothing", Type::Num));
    assert!(env.get_type("nothing").is_none());
}

// Opening a scope, defining names in it (one shadowing, one new), and closing it leaves
// every name resolving as before.
#[test]
fn a_scope_round_trip_restores_the_environment() {
    let mut env = Environment::new();
    env.define("x".to_string(), Type::Num, false, span(1, 1)).unwrap();
    env.push_scope();
    env.define("x".to_string(), Type::Text, true, span(2, 1)).unwrap();
    env.define("y".to_string(), Type::Bool, false, span(2, 5)).unwrap();
    assert!(env.define("y".to_string(), Type::Num, false, span(3, 1)).is_err());
    env.pop_scope();
    assert_eq!(env.depth(), 1);
    assert!(matches!(env.get_type("x"), Some(Type::Num)));
    assert_eq!(env.lookup("x").unwrap().span, span(1, 1));
    assert!(env.lookup("y").is_none());
}
