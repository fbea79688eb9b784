use quilon::ast::{Expr, SumVariant, Type};
use quilon::codegen::calls::{
    is_array_method, is_text_method, receiver_type_name, resolve_call, CallTarget, Registry,
};
use quilon::codegen::intrinsics::{
    intrinsic_signature, plan_exit, plan_print, plan_write, print_intrinsic_symbol, PrintArg, Yield,
    PrintIntrinsic,
};
use quilon::codegen::ir::{ir_to_text, ir_type_eq, ptr_len_type, IrType};
use quilon::codegen::mangle::{
    fmt_param_types, is_builtin_overload_name, mangle_overload, method_symbol, operator_word,
    type_label_text, type_mangle,
};
use quilon::codegen::sums::{
    build_result, coerce_payload, concrete_slots, payload_slot_type, result_struct_type,
    misfit_text, sum_constructor, sum_struct_type, sum_value_struct_type, Coercion, Payload,
    SumError,
};

fn s(text: &str) -> String {
    text.to_string()
}

fn ident(name: &str) -> Expr {
    Expr::Ident { name: s(name) }
}

fn named(name: &str) -> Type {
    Type::Named { name: s(name) }
}

fn registry(functions: &[&str], named_locals: &[(&str, &str)]) -> Registry {
    Registry {
        sum_variants: vec![(s("Ok"), 0, s("Result")), (s("NotOk"), 1, s("Result"))],
        closure_locals: vec![],
        variables: vec![],
        overloaded: vec![],
        functions: functions.iter().map(|f| s(f)).collect(),
        var_named_types: named_locals.iter().map(|(v, t)| (s(v), s(t))).collect(),
    }
}

fn symbol_of(target: Result<CallTarget, String>) -> String {
    match target {
        Ok(CallTarget::Function { symbol }) => symbol,
        other => panic!("expected a direct function call, got {:?}", other),
    }
}

fn text_struct() -> IrType {
    ptr_len_type()
}

// `Point = { x :: Num, y :: Num, sum = => it.x + it.y }` with `p = Point { .. }; p.sum()`:
// the method is emitted as `Point_sum`, and the call `p.sum()` (desugared to `sum(p)`)
// dispatches to it. The library decides the symbol and the call target; emitting the
// IR text ("@Point_sum", "call") is the LLVM layer's, so the test checks the decisions.
#[test]
fn test_method_codegen_and_dispatch() {
    let emitted = method_symbol("Point", "sum");
    assert_eq!(emitted, "Point_sum");
    let reg = registry(&["Point_sum", "^"], &[("p", "Point")]);
    let receiver = named("Point");
    let target = resolve_call(&ident("sum"), &vec![ident("p")], Some(&receiver), None, &reg);
    let symbol = symbol_of(target);
    assert!(symbol.contains("Point_sum"));
    assert_eq!(symbol, emitted);
}

// `doubled = => it.sum() + it.sum()` calls its sibling through `it`; the entry point
// calls `p.doubled()`. Both methods are emitted under their own symbols. As above, the
// test checks the symbols and the call targets rather than the emitted IR text.
#[test]
fn test_method_calls_sibling_method() {
    let sum = method_symbol("Point", "sum");
    let doubled = method_symbol("Point", "doubled");
    assert_eq!(sum, "Point_sum");
    assert_eq!(doubled, "Point_doubled");
    let inside = registry(&["Point_sum", "Point_doubled", "^"], &[("it", "Point")]);
    let receiver = named("Point");
    let from_sibling =
        symbol_of(resolve_call(&ident("sum"), &vec![ident("it")], Some(&receiver), None, &inside));
    assert_eq!(from_sibling, "Point_sum");
    let outside = registry(&["Point_sum", "Point_doubled", "^"], &[("p", "Point")]);
    let from_entry = symbol_of(resolve_call(
        &ident("doubled"),
        &vec![ident("p")],
        Some(&receiver),
        None,
        &outside,
    ));
    assert_eq!(from_entry, "Point_doubled");
}

// `add = (a :: Num, b :: Num) => a + b` and `main = => add(3, 4)`: the call in `main`
// is a direct call of the module function `add`. The test checks that resolution; the
// emitted "call @add" and the `fadd` of `add`'s body are the LLVM layer's.
#[test]
fn test_function_call() {
    let reg = registry(&["add", "main"], &[]);
    let args = vec![Expr::Number { literal: s("3") }, Expr::Number { literal: s("4") }];
    let target = resolve_call(&ident("add"), &args, Some(&Type::Num), None, &reg);
    let symbol = symbol_of(target);
    assert_eq!(symbol, "add");
}

#[test]
fn a_method_on_a_constructed_receiver_dispatches() {
    let reg = registry(&["Point_norm"], &[]);
    let receiver = Expr::Constructor { record: s("Point"), fields: vec![] };
    let target = resolve_call(&ident("norm"), &vec![receiver], None, None, &reg);
    assert_eq!(symbol_of(target), "Point_norm");
}

#[test]
fn receiver_type_comes_from_the_local_or_the_constructor() {
    let reg = registry(&[], &[("p", "Point"), ("q2", "Other")]);
    assert_eq!(receiver_type_name(&ident("p"), &reg), Some(s("Point")));
    assert_eq!(receiver_type_name(&ident("q"), &reg), None);
    let built = Expr::Constructor { record: s("Shape"), fields: vec![] };
    assert_eq!(receiver_type_name(&built, &reg), Some(s("Shape")));
    assert_eq!(receiver_type_name(&Expr::Unit, &reg), None);
}

#[test]
fn an_unknown_call_is_reported_by_name() {
    let reg = registry(&["main"], &[("p", "Point")]);
    let target = resolve_call(&ident("missing"), &vec![ident("p")], None, None, &reg);
    match target {
        Err(m) => assert_eq!(m, "Function not found: missing"),
        other => panic!("unexpected {:?}", other),
    }
    let not_direct = Expr::FieldAccess { expr: Box::new(ident("p")), field: s("x") };
    match resolve_call(&not_direct, &vec![], None, None, &reg) {
        Err(m) => assert_eq!(m, "Only direct function calls supported"),
        other => panic!("unexpected {:?}", other),
    }
}

#[test]
fn builtins_resolve_before_user_functions() {
    let reg = registry(&["print", "write", "map"], &[]);
    match resolve_call(&ident("print"), &vec![Expr::Unit], None, None, &reg) {
        Ok(CallTarget::Print { name }) => assert_eq!(name, "print"),
        other => panic!("unexpected {:?}", other),
    }
    let member = s("print$T");
    let mut overloaded = registry(&["print$T"], &[]);
    overloaded.overloaded = vec![s("print")];
    match resolve_call(&ident("print"), &vec![Expr::Unit], Some(&Type::Text), Some(&member), &overloaded) {
        Ok(CallTarget::Function { symbol }) => assert_eq!(symbol, "print$T"),
        other => panic!("unexpected {:?}", other),
    }
    let missing = s("print$B");
    match resolve_call(&ident("print"), &vec![Expr::Unit], None, Some(&missing), &overloaded) {
        Err(m) => assert_eq!(m, "Overload not found: print$B"),
        other => panic!("unexpected {:?}", other),
    }
    assert!(matches!(resolve_call(&ident("write"), &vec![], None, None, &reg), Ok(CallTarget::Write)));
    assert!(matches!(resolve_call(&ident("__exit"), &vec![], None, None, &reg), Ok(CallTarget::Exit)));
    let array = Type::Array(Box::new(Type::Num));
    match resolve_call(&ident("map"), &vec![ident("xs")], Some(&array), None, &reg) {
        Ok(CallTarget::ArrayMethod { name }) => assert_eq!(name, "map"),
        other => panic!("unexpected {:?}", other),
    }
    // On a non-array receiver `map` is an ordinary function.
    match resolve_call(&ident("map"), &vec![ident("xs")], Some(&Type::Num), None, &reg) {
        Ok(CallTarget::Function { symbol }) => assert_eq!(symbol, "map"),
        other => panic!("unexpected {:?}", other),
    }
    match resolve_call(&ident("trim"), &vec![ident("t")], Some(&Type::Text), None, &reg) {
        Ok(CallTarget::TextMethod { name }) => assert_eq!(name, "trim"),
        other => panic!("unexpected {:?}", other),
    }
}

#[test]
fn constructors_and_closures_resolve() {
    let mut reg = registry(&["f"], &[]);
    match resolve_call(&ident("NotOk"), &vec![Expr::Unit], None, None, &reg) {
        Ok(CallTarget::SumConstructor { tag, sum }) => {
            assert_eq!(tag, 1);
            assert_eq!(sum, "Result");
        },
        other => panic!("unexpected {:?}", other),
    }
    reg.closure_locals = vec![s("f")];
    reg.variables = vec![s("f")];
    match resolve_call(&ident("f"), &vec![], None, None, &reg) {
        Ok(CallTarget::Closure { name }) => assert_eq!(name, "f"),
        other => panic!("unexpected {:?}", other),
    }
}

#[test]
fn reserved_method_names() {
    assert!(is_array_method("reduce"));
    assert!(!is_array_method("sum"));
    assert!(is_text_method("toUpper"));
    assert!(!is_text_method("upper"));
}

#[test]
fn type_tags_mangle_overloads() {
    assert_eq!(type_mangle(&Type::Num), "N");
    assert_eq!(type_mangle(&Type::Array(Box::new(Type::Text))), "AT");
    assert_eq!(type_mangle(&named("Point")), "named$Point");
    assert_eq!(type_mangle(&Type::Generic { name: s("T") }), "N");
    let f = Type::Function { params: vec![Type::Num], ret: Box::new(Type::Bool) };
    assert_eq!(type_mangle(&f), "XFunctionparamsNumretBool");
    assert_eq!(
        mangle_overload("+", &vec![named("Point"), named("Point")]),
        "op.add$named$Point$named$Point"
    );
    assert_eq!(mangle_overload("show", &vec![Type::Text, Type::Unit]), "show$T$U");
    assert_eq!(mangle_overload("show", &vec![]), "show");
    assert_eq!(operator_word("<="), Some("le"));
    assert_eq!(operator_word("plus"), None);
    assert!(is_builtin_overload_name("eprint"));
    assert!(!is_builtin_overload_name("println"));
}

#[test]
fn type_labels_read_like_the_source() {
    assert_eq!(type_label_text(&Type::Array(Box::new(Type::Text))), "[]Text");
    assert_eq!(type_label_text(&Type::Unit), "$");
    let f = Type::Function { params: vec![Type::Num, Type::Text], ret: Box::new(Type::Bool) };
    assert_eq!(type_label_text(&f), "(Num, Text) -> Bool");
    assert_eq!(fmt_param_types(&vec![]), "");
    assert_eq!(fmt_param_types(&vec![Type::Num, Type::Array(Box::new(Type::Text))]), "Num, []Text");
}

#[test]
fn machine_types_spell_as_llvm_assembly() {
    assert_eq!(ir_to_text(&IrType::Int { bits: 64 }), "i64");
    assert_eq!(ir_to_text(&text_struct()), "{ ptr, i64 }");
    assert_eq!(ir_to_text(&IrType::Struct { fields: vec![] }), "{}");
    let arr = IrType::Array { elem: Box::new(IrType::F64), len: 3 };
    assert_eq!(ir_to_text(&arr), "[3 x double]");
    assert!(ir_type_eq(&text_struct(), &text_struct()));
    assert!(!ir_type_eq(&IrType::Int { bits: 8 }, &IrType::Int { bits: 64 }));
}

#[test]
fn intrinsic_signatures_are_known_by_name() {
    let sig = intrinsic_signature("__text_cmp").unwrap();
    assert_eq!(sig.params.len(), 4);
    assert!(matches!(sig.ret, Some(IrType::Int { bits: 32 })));
    let alloc = intrinsic_signature("__alloc").unwrap();
    assert!(matches!(alloc.ret, Some(IrType::Ptr)));
    assert!(intrinsic_signature("__gc_init").unwrap().ret.is_none());
    match intrinsic_signature("__nope") {
        Err(m) => assert_eq!(m, "Unknown runtime intrinsic: __nope"),
        Ok(_) => panic!("unknown intrinsic accepted"),
    }
}

#[test]
fn print_lowering_routes_by_machine_type() {
    let (p, yields) = plan_print("print", &vec![IrType::F64], "T").unwrap();
    assert_eq!(yields, Yield::NumZero);
    assert_eq!(p.fd, 1);
    assert_eq!(p.intrinsic, PrintIntrinsic::Num);
    assert_eq!(print_intrinsic_symbol(p.intrinsic), "__print_num_fd");
    let (e, _) = plan_print("eprint", &vec![text_struct()], "T").unwrap();
    assert_eq!(e.fd, 2);
    assert_eq!(e.intrinsic, PrintIntrinsic::Text);
    assert_eq!(e.arg, PrintArg::TextData);
    let (b, _) = plan_print("print", &vec![IrType::Int { bits: 1 }], "T").unwrap();
    assert_eq!(b.intrinsic, PrintIntrinsic::Bool);
    assert_eq!(b.arg, PrintArg::BoolToI64);
    let (i, _) = plan_print("print", &vec![IrType::Int { bits: 64 }], "T").unwrap();
    assert_eq!(i.arg, PrintArg::IntToNum);
    match plan_print("print", &vec![IrType::F64, IrType::F64], "T") {
        Err(m) => assert_eq!(m, "print expects exactly 1 argument, got 2"),
        Ok(_) => panic!("two arguments accepted"),
    }
    let arr = IrType::Array { elem: Box::new(IrType::F64), len: 2 };
    match plan_print("print", &vec![IrType::Struct { fields: vec![] }], "T") {
        Err(m) => assert_eq!(m, "Failed to extract text data: Aggregate extract index out of range"),
        Ok(_) => panic!("a field-less Text accepted"),
    }
    match plan_print("print", &vec![arr], "T") {
        Err(m) => assert_eq!(m, "print does not support a value of type T"),
        Ok(_) => panic!("array accepted"),
    }
}

#[test]
fn exit_and_write_check_their_arguments() {
    assert_eq!(plan_exit(&vec![IrType::F64]), Ok(Yield::Unit));
    assert_eq!(plan_exit(&vec![]).unwrap_err(), "__exit expects exactly 1 argument, got 0");
    assert_eq!(plan_exit(&vec![IrType::Ptr]).unwrap_err(), "__exit expects a Num exit code");
    assert_eq!(plan_write(&vec![text_struct(), IrType::F64], "C", "F"), Ok(Yield::BytesWritten));
    assert_eq!(
        plan_write(&vec![IrType::Struct { fields: vec![] }, IrType::F64], "C", "F").unwrap_err(),
        "Failed to extract text data: Aggregate extract index out of range"
    );
    assert_eq!(
        plan_write(&vec![IrType::Struct { fields: vec![IrType::Ptr] }, IrType::F64], "C", "F").unwrap_err(),
        "Failed to extract text len: Aggregate extract index out of range"
    );
    assert_eq!(
        plan_write(&vec![text_struct()], "C", "F").unwrap_err(),
        "write expects exactly 2 arguments (content, fd), got 1"
    );
    assert_eq!(
        plan_write(&vec![IrType::F64, IrType::F64], "C", "F").unwrap_err(),
        "write expects a Text content, got C"
    );
    assert_eq!(
        plan_write(&vec![text_struct(), IrType::Int { bits: 64 }], "C", "F").unwrap_err(),
        "write expects a Num fd, got F"
    );
}

#[test]
fn payloads_coerce_into_their_slots() {
    assert_eq!(coerce_payload(&IrType::Int { bits: 1 }, &IrType::F64, "V", "S"), Ok(Coercion::IntToFloat));
    assert_eq!(coerce_payload(&IrType::Ptr, &IrType::Ptr, "V", "S"), Ok(Coercion::AsIs));
    assert_eq!(coerce_payload(&IrType::Int { bits: 8 }, &IrType::Ptr, "V", "S"), Ok(Coercion::Zeroed));
    assert_eq!(
        coerce_payload(&IrType::Ptr, &IrType::F64, "V", "S"),
        Err(s("internal error: sum-type payload of type V does not fit slot S"))
    );
    assert!(matches!(payload_slot_type(&IrType::Int { bits: 32 }), IrType::F64));
    assert!(matches!(payload_slot_type(&IrType::Int { bits: 1 }), IrType::Int { bits: 1 }));
}

#[test]
fn sum_values_take_the_registered_layout() {
    let layouts = vec![(s("Shape"), vec![IrType::F64, IrType::F64])];
    let circle = sum_constructor(
        &layouts,
        "Shape",
        0,
        &vec![Payload { ty: IrType::Int { bits: 64 }, is_unit: false }],
    )
    .unwrap();
    assert_eq!(ir_to_text(&circle.struct_type), "{ i8, double, double }");
    assert_eq!(circle.tag, 0);
    assert_eq!(circle.coercions, vec![Coercion::IntToFloat]);
    let too_many = vec![
        Payload { ty: IrType::F64, is_unit: false },
        Payload { ty: IrType::F64, is_unit: false },
        Payload { ty: IrType::F64, is_unit: false },
    ];
    match sum_constructor(&layouts, "Shape", 1, &too_many) {
        Err(SumError::Failed(m)) => {
            assert_eq!(m, "Failed to insert payload: Aggregate extract index out of range")
        },
        Err(other) => panic!("unexpected {:?}", other),
        Ok(_) => panic!("payload beyond the layout accepted"),
    }
    let ok_unit =
        sum_constructor(&layouts, "Result", 0, &vec![Payload { ty: IrType::Int { bits: 8 }, is_unit: true }])
            .unwrap();
    assert_eq!(ir_to_text(&ok_unit.struct_type), "{ i8, double }");
    assert_eq!(ok_unit.coercions, vec![Coercion::IntToFloat]);
    let not_ok =
        sum_constructor(&layouts, "Result", 1, &vec![Payload { ty: text_struct(), is_unit: false }])
            .unwrap();
    assert_eq!(ir_to_text(&not_ok.struct_type), "{ i8, { ptr, i64 } }");
    assert_eq!(ir_to_text(&sum_struct_type(&layouts, "Shape")), "{ i8, double, double }");
    assert_eq!(ir_to_text(&sum_struct_type(&layouts, "Unknown")), "{ i8, double }");
}

#[test]
fn result_shapes_follow_their_payloads() {
    let variants = vec![
        SumVariant { name: s("Ok"), fields: vec![Type::Generic { name: s("T") }] },
        SumVariant { name: s("NotOk"), fields: vec![Type::Text] },
    ];
    let slots = concrete_slots(&variants);
    assert_eq!(slots.len(), 1);
    assert!(matches!(slots[0], Some(Type::Text)));
    let layouts: Vec<(String, Vec<IrType>)> = vec![];
    let st = sum_value_struct_type(&layouts, "Result", &variants, &vec![Some(text_struct())]);
    assert_eq!(ir_to_text(&st), "{ i8, { ptr, i64 } }");
    let (found, tag) = build_result(
        &vec![(s("Ok"), 0, s("Result")), (s("NotOk"), 1, s("Result"))],
        &IrType::F64,
        "NotOk",
    );
    assert_eq!(tag, 1);
    assert_eq!(ir_to_text(&found), "{ i8, double }");
    assert_eq!(ir_to_text(&result_struct_type(&IrType::Ptr)), "{ i8, ptr }");
}

#[test]
fn a_definition_and_a_call_mangle_alike() {
    let declared = vec![Type::Generic { name: s("T") }, Type::Array(Box::new(named("P")))];
    let inferred = vec![Type::Num, Type::Array(Box::new(named("P")))];
    assert_eq!(mangle_overload("f", &declared), mangle_overload("f", &inferred));
    assert_eq!(mangle_overload("f", &inferred), "f$N$Anamed$P");
}

#[test]
fn a_result_tag_is_its_constructor_tag() {
    let variants = vec![(s("Ok"), 0, s("Result")), (s("NotOk"), 1, s("Result"))];
    let reg = registry(&[], &[]);
    for variant in ["Ok", "NotOk"] {
        let (_, tag) = build_result(&variants, &IrType::F64, variant);
        match resolve_call(&ident(variant), &vec![Expr::Unit], None, None, &reg) {
            Ok(CallTarget::SumConstructor { tag: resolved, sum }) => {
                assert_eq!(tag, resolved);
                assert_eq!(sum, "Result");
            },
            other => panic!("unexpected {:?}", other),
        }
    }
}

#[test]
fn a_result_value_has_its_type() {
    let variants = vec![
        SumVariant { name: s("Ok"), fields: vec![Type::Bool] },
        SumVariant { name: s("NotOk"), fields: vec![Type::Text] },
    ];
    let layouts: Vec<(String, Vec<IrType>)> = vec![];
    let slot_types = vec![Some(IrType::Int { bits: 1 })];
    let declared = sum_value_struct_type(&layouts, "Result", &variants, &slot_types);
    let built = sum_constructor(
        &layouts,
        "Result",
        0,
        &vec![Payload { ty: IrType::Int { bits: 1 }, is_unit: false }],
    )
    .unwrap();
    assert_eq!(ir_to_text(&declared), "{ i8, i1 }");
    assert_eq!(ir_to_text(&built.struct_type), ir_to_text(&declared));
}

// A payload that fits its slot in no way names the payload and the slot's type; the
// message spells both types as the caller renders them.
#[test]
fn a_misfit_payload_is_reported_with_its_slot() {
    let layouts = vec![(s("Shape"), vec![IrType::F64])];
    match sum_constructor(&layouts, "Shape", 0, &vec![Payload { ty: IrType::Ptr, is_unit: false }]) {
        Err(SumError::Misfit { payload, slot }) => {
            assert_eq!(payload, 0);
            assert!(matches!(slot, IrType::F64));
        },
        other => panic!("unexpected {:?}", other),
    }
    assert_eq!(
        misfit_text("PointerType", "FloatType"),
        "internal error: sum-type payload of type PointerType does not fit slot FloatType"
    );
}

// The function-type fallback tag keeps what the type's `Debug` text keeps after the
// filter: escaped characters leave their escape letters and hex digits.
#[test]
fn a_function_type_tag_follows_its_debug_text() {
    let f = Type::Function {
        params: vec![Type::Named { name: s("e\u{301}\tq\"") }, Type::Array(Box::new(Type::Num))],
        ret: Box::new(Type::Sum {
            name: s("R$x"),
            variants: vec![SumVariant { name: s("Ok"), fields: vec![Type::Generic { name: s("é") }] }],
        }),
    };
    let expected: String = format!("X{:?}", f).chars().filter(|c| c.is_alphanumeric() || *c == '$').collect();
    assert_eq!(type_mangle(&f), expected);
    assert!(expected.contains("Namednameeu301tq"));
}
