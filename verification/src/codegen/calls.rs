//! Call lowering: resolving what a call names — a builtin intrinsic, a built-in array or
//! `Text` method, a sum-type constructor, a local closure, an overload member, a plain
//! function, or a record method.

use vstd::prelude::*;
use vstd::string::*;
use crate::ast::{Expr, Type, TypeModel};
use crate::codegen::mangle::{method_symbol, method_symbol_of};

verus! {

broadcast use vstd::std_specs::vec::group_vec_axioms;

/// What the code generator knows when it resolves a call: the sum constructors, the
/// locals in scope, the overloaded names, and the symbols the module defines.
#[derive(Debug)]
pub struct Registry {
    /// Each sum-type constructor: its name, its tag, and the sum type it builds.
    pub sum_variants: Vec<(String, u8, String)>,
    /// Locals bound to a closure value (with a recorded closure signature).
    pub closure_locals: Vec<String>,
    /// Locals in scope.
    pub variables: Vec<String>,
    /// Names that have an overload set.
    pub overloaded: Vec<String>,
    /// Symbols the module defines.
    pub functions: Vec<String>,
    /// Locals holding an instance of a named record type, with that type's name.
    pub var_named_types: Vec<(String, String)>,
}

/// The mathematical value of a [`Registry`].
pub struct RegistryModel {
    pub sum_variants: Seq<(Seq<char>, u8, Seq<char>)>,
    pub closure_locals: Seq<Seq<char>>,
    pub variables: Seq<Seq<char>>,
    pub overloaded: Seq<Seq<char>>,
    pub functions: Seq<Seq<char>>,
    pub var_named_types: Seq<(Seq<char>, Seq<char>)>,
}

impl View for Registry {
    type V = RegistryModel;

    open spec fn view(&self) -> RegistryModel {
        RegistryModel {
            sum_variants: self.sum_variants@.map_values(
                |e: (String, u8, String)| (e.0@, e.1, e.2@),
            ),
            closure_locals: self.closure_locals@.map_values(|s: String| s@),
            variables: self.variables@.map_values(|s: String| s@),
            overloaded: self.overloaded@.map_values(|s: String| s@),
            functions: self.functions@.map_values(|s: String| s@),
            var_named_types: self.var_named_types@.map_values(
                |e: (String, String)| (e.0@, e.1@),
            ),
        }
    }
}

/// No constructor is registered twice.
pub open spec fn variant_names_unique(s: Seq<(Seq<char>, u8, Seq<char>)>) -> bool {
    forall|i: int, j: int| 0 <= i < j < s.len() ==> #[trigger] s[i].0 != #[trigger] s[j].0
}

/// No local is recorded twice.
pub open spec fn local_names_unique(s: Seq<(Seq<char>, Seq<char>)>) -> bool {
    forall|i: int, j: int| 0 <= i < j < s.len() ==> #[trigger] s[i].0 != #[trigger] s[j].0
}

/// No name is listed twice.
pub open spec fn names_unique(s: Seq<Seq<char>>) -> bool {
    forall|i: int, j: int| 0 <= i < j < s.len() ==> #[trigger] s[i] != #[trigger] s[j]
}

impl Registry {
    /// Each table is keyed by name: no constructor, local or symbol occurs twice.
    pub open spec fn wf(&self) -> bool {
        &&& variant_names_unique(self@.sum_variants)
        &&& local_names_unique(self@.var_named_types)
        &&& names_unique(self@.closure_locals)
        &&& names_unique(self@.variables)
        &&& names_unique(self@.overloaded)
        &&& names_unique(self@.functions)
    }
}

/// The constructor named `name`: its tag and sum type.
pub open spec fn lookup_variant(s: Seq<(Seq<char>, u8, Seq<char>)>, name: Seq<char>) -> Option<
    (u8, Seq<char>),
>
    decreases s.len(),
{
    if s.len() == 0 {
        None
    } else if s[0].0 == name {
        Some((s[0].1, s[0].2))
    } else {
        lookup_variant(s.drop_first(), name)
    }
}

/// The record type recorded for local `name`.
pub open spec fn lookup_named(s: Seq<(Seq<char>, Seq<char>)>, name: Seq<char>) -> Option<
    Seq<char>,
>
    decreases s.len(),
{
    if s.len() == 0 {
        None
    } else if s[0].0 == name {
        Some(s[0].1)
    } else {
        lookup_named(s.drop_first(), name)
    }
}

/// Whether `name` is listed.
fn listed(names: &Vec<String>, name: &String) -> (r: bool)
    ensures
        r == names@.map_values(|s: String| s@).contains(name@),
{
    let ghost m = names@.map_values(|s: String| s@);
    let mut i: usize = 0;
    while i < names.len()
        invariant
            i <= names@.len(),
            m == names@.map_values(|s: String| s@),
            forall|j: int| 0 <= j < i ==> names@[j]@ != name@,
        decreases names@.len() - i,
    {
        if names[i] == *name {
            assert(m[i as int] == name@);
            return true;
        }
        i += 1;
    }
    assert forall|j: int| 0 <= j < m.len() implies m[j] != name@ by {
        assert(m[j] == names@[j]@);
    }
    false
}

/// The tag and sum type of the constructor `name`, if it is one.
fn find_variant(s: &Vec<(String, u8, String)>, name: &String) -> (r: Option<(u8, String)>)
    ensures
        match r {
            Some((tag, sum)) => lookup_variant(
                s@.map_values(|e: (String, u8, String)| (e.0@, e.1, e.2@)),
                name@,
            ) == Some((tag, sum@)),
            None => lookup_variant(
                s@.map_values(|e: (String, u8, String)| (e.0@, e.1, e.2@)),
                name@,
            ) is None,
        },
{
    let ghost m = s@.map_values(|e: (String, u8, String)| (e.0@, e.1, e.2@));
    assert(m.subrange(0, m.len() as int) =~= m);
    let mut i: usize = 0;
    while i < s.len()
        invariant
            i <= s@.len(),
            m == s@.map_values(|e: (String, u8, String)| (e.0@, e.1, e.2@)),
            lookup_variant(m, name@) == lookup_variant(m.subrange(i as int, m.len() as int), name@),
        decreases s@.len() - i,
    {
        let ghost rest = m.subrange(i as int, m.len() as int);
        assert(rest.drop_first() =~= m.subrange(i + 1, m.len() as int));
        assert(rest[0] == m[i as int]);
        if s[i].0 == *name {
            return Some((s[i].1, s[i].2.clone()));
        }
        i += 1;
    }
    None
}

/// The record type recorded for local `name`, if any.
fn find_named(s: &Vec<(String, String)>, name: &String) -> (r: Option<String>)
    ensures
        match r {
            Some(t) => lookup_named(s@.map_values(|e: (String, String)| (e.0@, e.1@)), name@)
                == Some(t@),
            None => lookup_named(s@.map_values(|e: (String, String)| (e.0@, e.1@)), name@) is None,
        },
{
    let ghost m = s@.map_values(|e: (String, String)| (e.0@, e.1@));
    assert(m.subrange(0, m.len() as int) =~= m);
    let mut i: usize = 0;
    while i < s.len()
        invariant
            i <= s@.len(),
            m == s@.map_values(|e: (String, String)| (e.0@, e.1@)),
            lookup_named(m, name@) == lookup_named(m.subrange(i as int, m.len() as int), name@),
        decreases s@.len() - i,
    {
        let ghost rest = m.subrange(i as int, m.len() as int);
        assert(rest.drop_first() =~= m.subrange(i + 1, m.len() as int));
        assert(rest[0] == m[i as int]);
        if s[i].0 == *name {
            return Some(s[i].1.clone());
        }
        i += 1;
    }
    None
}

/// The named record type of a method-call receiver, if known: a local holding a
/// constructed instance, or a constructor expression used directly.
pub open spec fn receiver_named(expr: Expr, reg: RegistryModel) -> Option<Seq<char>> {
    match expr {
        Expr::Ident { name } => lookup_named(reg.var_named_types, name@),
        Expr::Constructor { record, .. } => Some(record@),
        _ => None,
    }
}

/// Resolve the named record type of a method-call receiver, if known.
pub fn receiver_type_name(expr: &Expr, reg: &Registry) -> (r: Option<String>)
    requires
        reg.wf(),
    ensures
        match r {
            Some(t) => receiver_named(*expr, reg@) == Some(t@),
            None => receiver_named(*expr, reg@) is None,
        },
{
    match expr {
        Expr::Ident { name } => find_named(&reg.var_named_types, name),
        Expr::Constructor { record, .. } => Some(record.clone()),
        _ => None,
    }
}

/// The built-in array methods, reserved on array receivers.
pub open spec fn array_method(name: Seq<char>) -> bool {
    name == "map"@ || name == "filter"@ || name == "reduce"@ || name == "each"@ || name
        == "find"@ || name == "at"@
}

/// The built-in `Text` methods, reserved on `Text` receivers.
pub open spec fn text_method(name: Seq<char>) -> bool {
    name == "length"@ || name == "trim"@ || name == "trimStart"@ || name == "trimEnd"@ || name
        == "toUpper"@ || name == "toLower"@ || name == "contains"@ || name == "indexOf"@ || name
        == "split"@ || name == "slice"@ || name == "replaceAll"@ || name == "replace"@
}

/// Whether `name` spells `lit`.
fn spells(name: &String, lit: &str) -> (r: bool)
    ensures
        r == (name@ == lit@),
{
    *name == String::from_str(lit)
}

/// Whether `name` is a built-in array method.
pub fn is_array_method(name: &str) -> (r: bool)
    ensures
        r == array_method(name@),
{
    let n = String::from_str(name);
    spells(&n, "map") || spells(&n, "filter") || spells(&n, "reduce") || spells(&n, "each")
        || spells(&n, "find") || spells(&n, "at")
}

/// Whether `name` is a built-in `Text` method.
pub fn is_text_method(name: &str) -> (r: bool)
    ensures
        r == text_method(name@),
{
    let n = String::from_str(name);
    spells(&n, "length") || spells(&n, "trim") || spells(&n, "trimStart") || spells(
        &n,
        "trimEnd",
    ) || spells(&n, "toUpper") || spells(&n, "toLower") || spells(&n, "contains") || spells(
        &n,
        "indexOf",
    ) || spells(&n, "split") || spells(&n, "slice") || spells(&n, "replaceAll") || spells(
        &n,
        "replace",
    )
}

/// What a call lowers to.
#[derive(Debug)]
pub enum CallTarget {
    /// The built-in single-argument `print`/`eprint` intrinsic.
    Print { name: String },
    /// The `write(content, fd)` builtin.
    Write,
    /// The `__exit(code)` primitive.
    Exit,
    /// A built-in array method on an array receiver.
    ArrayMethod { name: String },
    /// A built-in `Text` method on a `Text` receiver.
    TextMethod { name: String },
    /// A sum-type constructor: the variant's tag and its sum type.
    SumConstructor { tag: u8, sum: String },
    /// An indirect call of a local closure.
    Closure { name: String },
    /// A direct call of a module function, by symbol.
    Function { symbol: String },
}

/// The mathematical value of a [`CallTarget`].
pub enum CallTargetModel {
    Print { name: Seq<char> },
    Write,
    Exit,
    ArrayMethod { name: Seq<char> },
    TextMethod { name: Seq<char> },
    SumConstructor { tag: u8, sum: Seq<char> },
    Closure { name: Seq<char> },
    Function { symbol: Seq<char> },
}

impl View for CallTarget {
    type V = CallTargetModel;

    open spec fn view(&self) -> CallTargetModel {
        match self {
            CallTarget::Print { name } => CallTargetModel::Print { name: name@ },
            CallTarget::Write => CallTargetModel::Write,
            CallTarget::Exit => CallTargetModel::Exit,
            CallTarget::ArrayMethod { name } => CallTargetModel::ArrayMethod { name: name@ },
            CallTarget::TextMethod { name } => CallTargetModel::TextMethod { name: name@ },
            CallTarget::SumConstructor { tag, sum } => CallTargetModel::SumConstructor {
                tag: *tag,
                sum: sum@,
            },
            CallTarget::Closure { name } => CallTargetModel::Closure { name: name@ },
            CallTarget::Function { symbol } => CallTargetModel::Function { symbol: symbol@ },
        }
    }
}

/// The mathematical value of a resolution result.
pub open spec fn resolution_view(r: Result<CallTarget, String>) -> Result<CallTargetModel, Seq<char>> {
    match r {
        Ok(t) => Ok(t@),
        Err(m) => Err(m@),
    }
}

/// The last step of resolution: a module function by name, or else a method of the
/// receiver's record type (`Type_method`).
pub open spec fn function_or_method(
    name: Seq<char>,
    receiver: Option<Seq<char>>,
    reg: RegistryModel,
) -> Result<CallTargetModel, Seq<char>> {
    if reg.functions.contains(name) {
        Ok(CallTargetModel::Function { symbol: name })
    } else {
        match receiver {
            Some(t) if reg.functions.contains(method_symbol_of(t, name)) => Ok(
                CallTargetModel::Function { symbol: method_symbol_of(t, name) },
            ),
            _ => Err("Function not found: "@ + name),
        }
    }
}

/// What a call of `func` with `args` resolves to. `receiver` is the type of the first
/// argument when known, and `member` the overload member the argument types select, if
/// any. The checks run in this order: the I/O and exit builtins (a single-argument
/// `print`/`eprint` only when no user overload matches), the methods reserved on
/// arrays and on `Text`, sum constructors, local closures (which shadow top-level
/// functions), overload members, plain functions, and finally record methods.
pub open spec fn call_target(
    func: Expr,
    args: Seq<Expr>,
    receiver: Option<TypeModel>,
    member: Option<Seq<char>>,
    reg: RegistryModel,
) -> Result<CallTargetModel, Seq<char>> {
    match func {
        Expr::Ident { name } => {
            let n = name@;
            if (n == "print"@ || n == "eprint"@) && args.len() == 1 && member is None {
                Ok(CallTargetModel::Print { name: n })
            } else if n == "write"@ {
                Ok(CallTargetModel::Write)
            } else if n == "__exit"@ {
                Ok(CallTargetModel::Exit)
            } else if array_method(n) && args.len() > 0 && receiver matches Some(
                TypeModel::Array(_),
            ) {
                Ok(CallTargetModel::ArrayMethod { name: n })
            } else if text_method(n) && args.len() > 0 && receiver == Some(TypeModel::Text) {
                Ok(CallTargetModel::TextMethod { name: n })
            } else if lookup_variant(reg.sum_variants, n) is Some {
                let (tag, sum) = lookup_variant(reg.sum_variants, n).unwrap();
                Ok(CallTargetModel::SumConstructor { tag, sum })
            } else if reg.closure_locals.contains(n) && reg.variables.contains(n) {
                Ok(CallTargetModel::Closure { name: n })
            } else if reg.overloaded.contains(n) && member is Some {
                let sym = member.unwrap();
                if reg.functions.contains(sym) {
                    Ok(CallTargetModel::Function { symbol: sym })
                } else {
                    Err("Overload not found: "@ + sym)
                }
            } else {
                let recv = if args.len() > 0 {
                    receiver_named(args[0], reg)
                } else {
                    None
                };
                function_or_method(n, recv, reg)
            }
        },
        _ => Err("Only direct function calls supported"@),
    }
}

/// A method call dispatches to the receiver's record method: `recv.m(args)`, which the
/// parser desugars to `m(recv, args)`, calls `Type_m` when no builtin, reserved method,
/// constructor, closure, overload or plain function claims the name `m`.
pub proof fn law_method_call_dispatches_to_the_record_method(
    method: String,
    recv: Expr,
    rest: Seq<Expr>,
    receiver: Option<TypeModel>,
    member: Option<Seq<char>>,
    reg: RegistryModel,
    record: Seq<char>,
)
    requires
        method@ != "print"@,
        method@ != "eprint"@,
        method@ != "write"@,
        method@ != "__exit"@,
        !array_method(method@),
        !text_method(method@),
        lookup_variant(reg.sum_variants, method@) is None,
        !reg.closure_locals.contains(method@),
        !reg.overloaded.contains(method@),
        !reg.functions.contains(method@),
        receiver_named(recv, reg) == Some(record),
        reg.functions.contains(method_symbol_of(record, method@)),
    ensures
        call_target(Expr::Ident { name: method }, seq![recv] + rest, receiver, member, reg) == Ok::<
            CallTargetModel,
            Seq<char>,
        >(CallTargetModel::Function { symbol: method_symbol_of(record, method@) }),
{
    assert((seq![recv] + rest)[0] == recv);
}

/// The built-in array and `Text` methods are reserved on their own receivers only: a
/// call whose receiver is not an array never lowers to an array method, and one whose
/// receiver is not a `Text` never lowers to a `Text` method.
pub proof fn law_reserved_methods_only_on_their_receivers(
    func: Expr,
    args: Seq<Expr>,
    receiver: Option<TypeModel>,
    member: Option<Seq<char>>,
    reg: RegistryModel,
)
    ensures
        !(receiver matches Some(TypeModel::Array(_))) ==> !(call_target(
            func,
            args,
            receiver,
            member,
            reg,
        ) matches Ok(CallTargetModel::ArrayMethod { .. })),
        receiver != Some(TypeModel::Text) ==> !(call_target(
            func,
            args,
            receiver,
            member,
            reg,
        ) matches Ok(CallTargetModel::TextMethod { .. })),
{
}

/// Each built-in array method — `map`, `filter`, `reduce`, `each`, `find`, `at` — called
/// with a receiver that is an array lowers to that array method.
pub proof fn law_array_methods_apply_to_arrays(
    name: String,
    args: Seq<Expr>,
    elem: TypeModel,
    member: Option<Seq<char>>,
    reg: RegistryModel,
)
    requires
        name@ == "map"@ || name@ == "filter"@ || name@ == "reduce"@ || name@ == "each"@ || name@
            == "find"@ || name@ == "at"@,
        args.len() > 0,
    ensures
        call_target(
            Expr::Ident { name },
            args,
            Some(TypeModel::Array(Box::new(elem))),
            member,
            reg,
        ) == Ok::<CallTargetModel, Seq<char>>(CallTargetModel::ArrayMethod { name: name@ }),
{
    reveal_strlit("map");
    reveal_strlit("filter");
    reveal_strlit("reduce");
    reveal_strlit("each");
    reveal_strlit("find");
    reveal_strlit("at");
    reveal_strlit("print");
    reveal_strlit("eprint");
    reveal_strlit("write");
    reveal_strlit("__exit");
    let n = name@;
    assert(n[0] == 'm' || n[0] == 'f' || n[0] == 'r' || n[0] == 'e' || n[0] == 'a');
    assert(n.len() != 6 || n[0] == 'f' || n[0] == 'r');
    assert("print"@[0] == 'p' && "eprint"@[0] == 'e' && "write"@[0] == 'w' && "__exit"@[0]
        == '_');
    assert("eprint"@.len() == 6);
    assert(n != "print"@ && n != "eprint"@ && n != "write"@ && n != "__exit"@);
}

/// Each built-in `Text` method called with a receiver that is a `Text` lowers to that
/// `Text` method.
pub proof fn law_text_methods_apply_to_text(
    name: String,
    args: Seq<Expr>,
    member: Option<Seq<char>>,
    reg: RegistryModel,
)
    requires
        name@ == "length"@ || name@ == "trim"@ || name@ == "trimStart"@ || name@ == "trimEnd"@
            || name@ == "toUpper"@ || name@ == "toLower"@ || name@ == "contains"@ || name@
            == "indexOf"@ || name@ == "split"@ || name@ == "slice"@ || name@ == "replaceAll"@
            || name@ == "replace"@,
        args.len() > 0,
    ensures
        call_target(Expr::Ident { name }, args, Some(TypeModel::Text), member, reg) == Ok::<
            CallTargetModel,
            Seq<char>,
        >(CallTargetModel::TextMethod { name: name@ }),
{
    reveal_strlit("length");
    reveal_strlit("trim");
    reveal_strlit("trimStart");
    reveal_strlit("trimEnd");
    reveal_strlit("toUpper");
    reveal_strlit("toLower");
    reveal_strlit("contains");
    reveal_strlit("indexOf");
    reveal_strlit("split");
    reveal_strlit("slice");
    reveal_strlit("replaceAll");
    reveal_strlit("replace");
    reveal_strlit("print");
    reveal_strlit("eprint");
    reveal_strlit("write");
    reveal_strlit("__exit");
    reveal_strlit("map");
    reveal_strlit("filter");
    reveal_strlit("reduce");
    reveal_strlit("each");
    reveal_strlit("find");
    reveal_strlit("at");
    let n = name@;
    assert(n[0] == 'l' || n[0] == 't' || n[0] == 'c' || n[0] == 'i' || n[0] == 's' || n[0]
        == 'r');
    assert("print"@[0] == 'p' && "eprint"@[0] == 'e' && "write"@[0] == 'w' && "__exit"@[0]
        == '_');
    assert(n != "print"@ && n != "eprint"@ && n != "write"@ && n != "__exit"@);
}

/// Resolve what the call `func(args)` lowers to. `receiver` is the type the checker
/// inferred for the first argument (if known), and `member` the symbol of the overload
/// member the argument types select, if one does.
pub fn resolve_call(
    func: &Expr,
    args: &Vec<Expr>,
    receiver: Option<&Type>,
    member: Option<&String>,
    reg: &Registry,
) -> (r: Result<CallTarget, String>)
    requires
        reg.wf(),
    ensures
        resolution_view(r) == call_target(
            *func,
            args@,
            match receiver {
                Some(t) => Some(t@),
                None => None,
            },
            match member {
                Some(m) => Some(m@),
                None => None,
            },
            reg@,
        ),
{
    let name = match func {
        Expr::Ident { name } => name,
        _ => {
            return Err(String::from_str("Only direct function calls supported"));
        },
    };
    if (spells(name, "print") || spells(name, "eprint")) && args.len() == 1 && member.is_none() {
        return Ok(CallTarget::Print { name: name.clone() });
    }
    if spells(name, "write") {
        return Ok(CallTarget::Write);
    }
    if spells(name, "__exit") {
        return Ok(CallTarget::Exit);
    }
    let on_array = match receiver {
        Some(Type::Array(_)) => true,
        _ => false,
    };
    if is_array_method(name.as_str()) && args.len() > 0 && on_array {
        return Ok(CallTarget::ArrayMethod { name: name.clone() });
    }
    let on_text = match receiver {
        Some(Type::Text) => true,
        _ => false,
    };
    if is_text_method(name.as_str()) && args.len() > 0 && on_text {
        return Ok(CallTarget::TextMethod { name: name.clone() });
    }
    if let Some((tag, sum)) = find_variant(&reg.sum_variants, name) {
        return Ok(CallTarget::SumConstructor { tag, sum });
    }
    if listed(&reg.closure_locals, name) && listed(&reg.variables, name) {
        return Ok(CallTarget::Closure { name: name.clone() });
    }
    if listed(&reg.overloaded, name) {
        if let Some(sym) = member {
            if listed(&reg.functions, sym) {
                return Ok(CallTarget::Function { symbol: sym.clone() });
            }
            let mut msg = String::from_str("Overload not found: ");
            msg.append(sym.as_str());
            return Err(msg);
        }
    }
    if listed(&reg.functions, name) {
        return Ok(CallTarget::Function { symbol: name.clone() });
    }
    let recv = if args.len() > 0 {
        receiver_type_name(&args[0], reg)
    } else {
        None
    };
    if let Some(t) = recv {
        let mangled = method_symbol(t.as_str(), name.as_str());
        if listed(&reg.functions, &mangled) {
            return Ok(CallTarget::Function { symbol: mangled });
        }
    }
    let mut msg = String::from_str("Function not found: ");
    msg.append(name.as_str());
    Err(msg)
}

} // verus!
