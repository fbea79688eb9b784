//! Symbol mangling for overload members.
//!
//! Each overload member is emitted under a distinct symbol built from its parameter
//! types, so a call mangles to the same name the definition did.

use vstd::prelude::*;
use vstd::string::*;
use crate::ast::{lemma_type_models, lemma_variant_models, type_models, variant_models, SumVariant, Type, TypeModel, VariantModel};

verus! {

broadcast use vstd::std_specs::vec::group_vec_axioms;

/// Whether `c` is alphanumeric in Unicode's sense (alphabetic or numeric).
pub uninterp spec fn is_alphanumeric_char(c: char) -> bool;

/// `char::is_alphanumeric`: whether the character is alphabetic or numeric. Claimed:
/// the result is the named property of `c`; among ASCII characters exactly the
/// letters and digits have it.
pub assume_specification[ char::is_alphanumeric ](c: char) -> (r: bool)
    ensures
        r == is_alphanumeric_char(c),
        ('a' <= c <= 'z' || 'A' <= c <= 'Z' || '0' <= c <= '9') ==> r,
        ((c as u32) < 128 && !('a' <= c <= 'z' || 'A' <= c <= 'Z' || '0' <= c <= '9')) ==> !r,
;

/// Names that the compiler provides built-in overloads for (`print`/`eprint`). A user
/// definition of one adds an overload member (and is mangled) rather than shadowing the
/// built-in forms.
pub open spec fn builtin_overload_name(name: Seq<char>) -> bool {
    name == "print"@ || name == "eprint"@
}

/// Whether `name` has built-in overloads.
pub fn is_builtin_overload_name(name: &str) -> (r: bool)
    ensures
        r == builtin_overload_name(name@),
{
    let n = String::from_str(name);
    n == String::from_str("print") || n == String::from_str("eprint")
}

/// The pronounceable word for an operator symbol, `None` for an ordinary name.
pub open spec fn operator_word_of(name: Seq<char>) -> Option<Seq<char>> {
    if name == "+"@ {
        Some("add"@)
    } else if name == "-"@ {
        Some("sub"@)
    } else if name == "*"@ {
        Some("mul"@)
    } else if name == "/"@ {
        Some("div"@)
    } else if name == "%"@ {
        Some("mod"@)
    } else if name == "=="@ {
        Some("eq"@)
    } else if name == "!="@ {
        Some("ne"@)
    } else if name == "<"@ {
        Some("lt"@)
    } else if name == "<="@ {
        Some("le"@)
    } else if name == ">"@ {
        Some("gt"@)
    } else if name == ">="@ {
        Some("ge"@)
    } else if name == "&&"@ {
        Some("and"@)
    } else if name == "||"@ {
        Some("or"@)
    } else {
        None
    }
}

/// A pronounceable word for an operator symbol, for use in a mangled name (which can't
/// contain the raw symbol). Returns `None` for non-operator (ordinary) names.
pub fn operator_word(name: &str) -> (r: Option<&'static str>)
    ensures
        match r {
            Some(w) => operator_word_of(name@) == Some(w@),
            None => operator_word_of(name@) is None,
        },
{
    let n = String::from_str(name);
    if n == String::from_str("+") {
        Some("add")
    } else if n == String::from_str("-") {
        Some("sub")
    } else if n == String::from_str("*") {
        Some("mul")
    } else if n == String::from_str("/") {
        Some("div")
    } else if n == String::from_str("%") {
        Some("mod")
    } else if n == String::from_str("==") {
        Some("eq")
    } else if n == String::from_str("!=") {
        Some("ne")
    } else if n == String::from_str("<") {
        Some("lt")
    } else if n == String::from_str("<=") {
        Some("le")
    } else if n == String::from_str(">") {
        Some("gt")
    } else if n == String::from_str(">=") {
        Some("ge")
    } else if n == String::from_str("&&") {
        Some("and")
    } else if n == String::from_str("||") {
        Some("or")
    } else {
        None
    }
}

/// Whether a character survives into a mangled name.
pub open spec fn tag_char(c: char) -> bool {
    is_alphanumeric_char(c) || c == '$'
}

/// The characters `Debug` writes for `c` inside a quoted string: `c` itself, or its
/// escape code.
pub uninterp spec fn debug_escape(c: char) -> Seq<char>;

/// `char::escape_debug`: the escape code `Debug` writes for a character. Claimed: the
/// result is the named sequence of `c`, and a printable ASCII character other than the
/// backslash and the two quotes stands for itself. (For a string, `Debug` writes each
/// character this way, except that it leaves a single quote unescaped; both forms keep
/// no mangling-safe character of a quote.)
#[verifier::external_body]
fn escape_debug_text(c: char) -> (r: String)
    ensures
        r@ == debug_escape(c),
        (' ' <= c <= '~' && c != '\\' && c != '\'' && c != '"') ==> r@ == seq![c],
{
    c.escape_debug().to_string()
}

/// The mangling-safe characters of `s`, in order.
pub open spec fn safe_chars(s: Seq<char>) -> Seq<char>
    decreases s.len(),
{
    if s.len() == 0 {
        Seq::empty()
    } else {
        let t = safe_chars(s.drop_last());
        if tag_char(s.last()) {
            t.push(s.last())
        } else {
            t
        }
    }
}

/// The mangling-safe characters of a name as `Debug` writes it inside its quotes: each
/// character escaped as `Debug` escapes it, then filtered.
pub open spec fn name_tag(s: Seq<char>) -> Seq<char>
    decreases s.len(),
{
    if s.len() == 0 {
        Seq::empty()
    } else {
        name_tag(s.drop_last()) + safe_chars(debug_escape(s.last()))
    }
}

/// The structural rendering of a type with only its mangling-safe characters kept:
/// the variant and field names of the type's structure, then the names it carries as
/// `Debug` writes them. This is what the type's derived `Debug` text leaves after the
/// filter.
pub open spec fn structure_tag(t: TypeModel) -> Seq<char>
    decreases t,
{
    match t {
        TypeModel::Num => "Num"@,
        TypeModel::Text => "Text"@,
        TypeModel::Bool => "Bool"@,
        TypeModel::Unit => "Unit"@,
        TypeModel::Array(elem) => "Array"@ + structure_tag(*elem),
        TypeModel::Named { name } => "Namedname"@ + name_tag(name),
        TypeModel::Sum { name, variants } => "Sumname"@ + name_tag(name) + "variants"@
            + variants_tag(variants),
        TypeModel::Generic { name } => "Genericname"@ + name_tag(name),
        TypeModel::Function { params, ret } => "Functionparams"@ + types_tag(params) + "ret"@
            + structure_tag(*ret),
    }
}

/// The structure tags of a sequence of types, concatenated.
pub open spec fn types_tag(ts: Seq<TypeModel>) -> Seq<char>
    decreases ts,
{
    if ts.len() == 0 {
        Seq::empty()
    } else {
        types_tag(ts.drop_last()) + structure_tag(ts.last())
    }
}

/// The structure tags of a sequence of sum variants, concatenated.
pub open spec fn variants_tag(vs: Seq<VariantModel>) -> Seq<char>
    decreases vs,
{
    if vs.len() == 0 {
        Seq::empty()
    } else {
        variants_tag(vs.drop_last()) + "SumVariantname"@ + name_tag(vs.last().name) + "fields"@
            + types_tag(vs.last().fields)
    }
}

/// The short, mangling-safe tag of a type used in overload name mangling.
pub open spec fn mangle_tag(t: TypeModel) -> Seq<char>
    decreases t,
{
    match t {
        TypeModel::Num => "N"@,
        TypeModel::Text => "T"@,
        TypeModel::Bool => "B"@,
        TypeModel::Unit => "U"@,
        TypeModel::Array(elem) => "A"@ + mangle_tag(*elem),
        TypeModel::Named { name } => "named$"@ + name,
        TypeModel::Sum { name, .. } => "named$"@ + name,
        TypeModel::Generic { .. } => "N"@,
        TypeModel::Function { .. } => "X"@ + structure_tag(t),
    }
}

/// The mangling-safe characters of `text`.
fn safe_chars_text(text: &str) -> (r: String)
    ensures
        r@ == safe_chars(text@),
{
    let n = text.unicode_len();
    let mut out = String::new();
    let mut i: usize = 0;
    while i < n
        invariant
            i <= n,
            n == text@.len(),
            out@ == safe_chars(text@.take(i as int)),
        decreases n - i,
    {
        let c = text.get_char(i);
        assert(text@.take(i + 1).drop_last() =~= text@.take(i as int));
        assert(text@.take(i + 1).last() == c);
        if c.is_alphanumeric() || c == '$' {
            let piece = text.substring_char(i, i + 1);
            assert(piece@ =~= seq![c]);
            out.append(piece);
        }
        i += 1;
    }
    assert(text@.take(n as int) =~= text@);
    out
}

/// The mangling-safe characters of `name` as `Debug` writes it.
fn name_tag_text(name: &String) -> (r: String)
    ensures
        r@ == name_tag(name@),
{
    let s = name.as_str();
    let n = s.unicode_len();
    let mut out = String::new();
    let mut i: usize = 0;
    while i < n
        invariant
            i <= n,
            n == name@.len(),
            s@ == name@,
            out@ == name_tag(name@.take(i as int)),
        decreases n - i,
    {
        let c = s.get_char(i);
        assert(name@.take(i + 1).drop_last() =~= name@.take(i as int));
        assert(name@.take(i + 1).last() == c);
        let escaped = escape_debug_text(c);
        let kept = safe_chars_text(escaped.as_str());
        out.append(kept.as_str());
        i += 1;
    }
    assert(name@.take(n as int) =~= name@);
    out
}

/// The concatenated structure tags of a vector of types.
#[verifier::loop_isolation(false)]
fn types_tag_text(ts: &Vec<Type>) -> (r: String)
    ensures
        r@ == types_tag(type_models(ts@)),
    decreases ts, 1int,
{
    proof {
        lemma_type_models(ts@);
    }
    let mut out = String::new();
    let mut i: usize = 0;
    while i < ts.len()
        invariant
            i <= ts.len(),
            out@ == types_tag(type_models(ts@).take(i as int)),
        decreases ts.len() - i,
    {
        let ghost ms = type_models(ts@);
        assert(ms.take(i + 1).drop_last() =~= ms.take(i as int));
        assert(ms.take(i + 1).last() == ts@[i as int]@);
        assert(decreases_to!(*ts => ts[i as int]));
        let piece = structure_tag_text(&ts[i]);
        out.append(piece.as_str());
        i += 1;
    }
    assert(type_models(ts@).take(ts@.len() as int) =~= type_models(ts@));
    out
}

/// The concatenated structure tags of a vector of sum variants.
#[verifier::loop_isolation(false)]
fn variants_tag_text(vs: &Vec<SumVariant>) -> (r: String)
    ensures
        r@ == variants_tag(variant_models(vs@)),
    decreases vs, 1int,
{
    proof {
        lemma_variant_models(vs@);
    }
    let mut out = String::new();
    let mut i: usize = 0;
    while i < vs.len()
        invariant
            i <= vs.len(),
            out@ == variants_tag(variant_models(vs@).take(i as int)),
        decreases vs.len() - i,
    {
        let ghost ms = variant_models(vs@);
        assert(ms.take(i + 1).drop_last() =~= ms.take(i as int));
        assert(ms.take(i + 1).last() == vs@[i as int]@);
        assert(decreases_to!(*vs => vs[i as int]));
        let v = &vs[i];
        assert(decreases_to!(vs[i as int] => v.fields));
        out.append("SumVariantname");
        let name = name_tag_text(&v.name);
        out.append(name.as_str());
        out.append("fields");
        let fields = types_tag_text(&v.fields);
        out.append(fields.as_str());
        i += 1;
    }
    assert(variant_models(vs@).take(vs@.len() as int) =~= variant_models(vs@));
    out
}

/// The structure tag of a type.
fn structure_tag_text(t: &Type) -> (r: String)
    ensures
        r@ == structure_tag(t@),
    decreases t, 0int,
{
    match t {
        Type::Num => String::from_str("Num"),
        Type::Text => String::from_str("Text"),
        Type::Bool => String::from_str("Bool"),
        Type::Unit => String::from_str("Unit"),
        Type::Array(elem) => {
            let mut s = String::from_str("Array");
            let inner = structure_tag_text(elem);
            s.append(inner.as_str());
            s
        },
        Type::Named { name } => {
            let mut s = String::from_str("Namedname");
            let n = name_tag_text(name);
            s.append(n.as_str());
            s
        },
        Type::Sum { name, variants } => {
            let mut s = String::from_str("Sumname");
            let n = name_tag_text(name);
            s.append(n.as_str());
            s.append("variants");
            let vs = variants_tag_text(variants);
            s.append(vs.as_str());
            s
        },
        Type::Generic { name } => {
            let mut s = String::from_str("Genericname");
            let n = name_tag_text(name);
            s.append(n.as_str());
            s
        },
        Type::Function { params, ret } => {
            let mut s = String::from_str("Functionparams");
            let ps = types_tag_text(params);
            s.append(ps.as_str());
            s.append("ret");
            let r = structure_tag_text(ret);
            s.append(r.as_str());
            s
        },
    }
}

/// A short, mangling-safe tag for a Quilon type used in overload name mangling.
/// Deterministic, so a definition (mangled from its declared parameter types) and a call
/// (mangled from its inferred argument types) agree. A not-yet-concrete sum payload
/// (`Generic`) resolves as `Num` for overload dispatch, so it mangles to the `Num` tag;
/// a function type gets a structural fallback tag.
pub fn type_mangle(ty: &Type) -> (r: String)
    ensures
        r@ == mangle_tag(ty@),
    decreases ty,
{
    match ty {
        Type::Num => String::from_str("N"),
        Type::Text => String::from_str("T"),
        Type::Bool => String::from_str("B"),
        Type::Unit => String::from_str("U"),
        Type::Array(elem) => {
            let mut s = String::from_str("A");
            let inner = type_mangle(elem);
            s.append(inner.as_str());
            s
        },
        Type::Named { name } | Type::Sum { name, .. } => {
            let mut s = String::from_str("named$");
            s.append(name.as_str());
            s
        },
        Type::Generic { .. } => String::from_str("N"),
        Type::Function { .. } => {
            let mut s = String::from_str("X");
            let tag = structure_tag_text(ty);
            s.append(tag.as_str());
            s
        },
    }
}

/// The parameter-type tags of an overload member, each preceded by `$`.
pub open spec fn params_tag(ts: Seq<TypeModel>) -> Seq<char>
    decreases ts.len(),
{
    if ts.len() == 0 {
        Seq::empty()
    } else {
        params_tag(ts.drop_last()) + "$"@ + mangle_tag(ts.last())
    }
}

/// The distinct symbol of one overload member: its name (an operator spelled out as
/// `op.<word>`) followed by a `$`-separated tag per parameter type.
pub open spec fn overload_symbol(name: Seq<char>, params: Seq<TypeModel>) -> Seq<char> {
    let base = match operator_word_of(name) {
        Some(w) => "op."@ + w,
        None => name,
    };
    base + params_tag(params)
}

/// The distinct symbol for one overload member: its name plus a per-parameter type tag.
/// Operator symbols (which aren't valid identifiers) are spelled out, so e.g. `+` on
/// `(Point, Point)` becomes `op.add$named$Point$named$Point`.
pub fn mangle_overload(name: &str, params: &Vec<Type>) -> (r: String)
    ensures
        r@ == overload_symbol(name@, type_models(params@)),
{
    proof {
        lemma_type_models(params@);
    }
    let mut s = match operator_word(name) {
        Some(w) => {
            let mut b = String::from_str("op.");
            b.append(w);
            b
        },
        None => String::from_str(name),
    };
    let ghost base = s@;
    let mut i: usize = 0;
    while i < params.len()
        invariant
            i <= params.len(),
            s@ == base + params_tag(type_models(params@).take(i as int)),
            type_models(params@).len() == params@.len(),
            forall|j: int| 0 <= j < params@.len() ==> #[trigger] type_models(params@)[j]
                == params@[j]@,
        decreases params.len() - i,
    {
        let ghost ms = type_models(params@);
        assert(ms.take(i + 1).drop_last() =~= ms.take(i as int));
        assert(ms.take(i + 1).last() == params@[i as int]@);
        s.append("$");
        let tag = type_mangle(&params[i]);
        s.append(tag.as_str());
        i += 1;
    }
    assert(type_models(params@).take(params@.len() as int) =~= type_models(params@));
    s
}

/// A definition and a call agree on an overload member's symbol: parameter types
/// with the same tags (a not-yet-concrete `Generic` and `Num`, say) mangle alike.
pub proof fn law_definition_and_call_agree(
    name: Seq<char>,
    declared: Seq<TypeModel>,
    inferred: Seq<TypeModel>,
)
    requires
        declared.len() == inferred.len(),
        forall|i: int| 0 <= i < declared.len() ==> mangle_tag(#[trigger] declared[i]) == mangle_tag(inferred[i]),
    ensures
        overload_symbol(name, declared) == overload_symbol(name, inferred),
{
    lemma_params_tag_agree(declared, inferred);
}

/// Parameter lists whose tags agree position by position have the same tag string.
proof fn lemma_params_tag_agree(a: Seq<TypeModel>, b: Seq<TypeModel>)
    requires
        a.len() == b.len(),
        forall|i: int| 0 <= i < a.len() ==> mangle_tag(#[trigger] a[i]) == mangle_tag(b[i]),
    ensures
        params_tag(a) == params_tag(b),
    decreases a.len(),
{
    if a.len() > 0 {
        assert forall|i: int| 0 <= i < a.drop_last().len() implies mangle_tag(
            #[trigger] a.drop_last()[i],
        ) == mangle_tag(b.drop_last()[i]) by {
            assert(a.drop_last()[i] == a[i]);
            assert(b.drop_last()[i] == b[i]);
        }
        lemma_params_tag_agree(a.drop_last(), b.drop_last());
        assert(mangle_tag(a[a.len() - 1]) == mangle_tag(b[b.len() - 1]));
    }
}

/// A concrete type built from `Num`, `Text`, `Bool`, `$`, arrays and named records.
pub open spec fn plain_type(t: TypeModel) -> bool
    decreases t,
{
    match t {
        TypeModel::Num | TypeModel::Text | TypeModel::Bool | TypeModel::Unit => true,
        TypeModel::Array(elem) => plain_type(*elem),
        TypeModel::Named { .. } => true,
        _ => false,
    }
}

/// The tag of a concrete type is never empty, and its first character tells the kind
/// of type apart.
proof fn lemma_tag_head(t: TypeModel)
    requires
        plain_type(t),
    ensures
        mangle_tag(t).len() >= 1,
        mangle_tag(t)[0] == match t {
            TypeModel::Num => 'N',
            TypeModel::Text => 'T',
            TypeModel::Bool => 'B',
            TypeModel::Unit => 'U',
            TypeModel::Array(_) => 'A',
            _ => 'n',
        },
{
    reveal_strlit("N");
    reveal_strlit("T");
    reveal_strlit("B");
    reveal_strlit("U");
    reveal_strlit("A");
    reveal_strlit("named$");
}

/// Distinct concrete types get distinct tags: in particular `Bool`, `Num`, `Text` and
/// `$` differ from each other, an array's tag determines its element type, and a named
/// type's tag determines its name.
pub proof fn law_distinct_types_get_distinct_tags(a: TypeModel, b: TypeModel)
    requires
        plain_type(a),
        plain_type(b),
        a != b,
    ensures
        mangle_tag(a) != mangle_tag(b),
    decreases a,
{
    lemma_tag_head(a);
    lemma_tag_head(b);
    reveal_strlit("A");
    reveal_strlit("named$");
    if mangle_tag(a) == mangle_tag(b) {
        match (a, b) {
            (TypeModel::Array(x), TypeModel::Array(y)) => {
                assert(mangle_tag(a).subrange(1, mangle_tag(a).len() as int) =~= mangle_tag(*x));
                assert(mangle_tag(b).subrange(1, mangle_tag(b).len() as int) =~= mangle_tag(*y));
                if *x != *y {
                    law_distinct_types_get_distinct_tags(*x, *y);
                }
            },
            (TypeModel::Named { name: x }, TypeModel::Named { name: y }) => {
                assert(mangle_tag(a).subrange(6, mangle_tag(a).len() as int) =~= x);
                assert(mangle_tag(b).subrange(6, mangle_tag(b).len() as int) =~= y);
            },
            _ => {},
        }
    }
}

/// Overload members of one name with distinct concrete parameter types get distinct
/// symbols, so neither shadows the other.
pub proof fn law_overload_members_get_distinct_symbols(name: Seq<char>, a: TypeModel, b: TypeModel)
    requires
        plain_type(a),
        plain_type(b),
        a != b,
    ensures
        overload_symbol(name, seq![a]) != overload_symbol(name, seq![b]),
{
    law_distinct_types_get_distinct_tags(a, b);
    let base = match operator_word_of(name) {
        Some(w) => "op."@ + w,
        None => name,
    };
    assert(seq![a].drop_last() =~= Seq::<TypeModel>::empty());
    assert(seq![b].drop_last() =~= Seq::<TypeModel>::empty());
    let sa = overload_symbol(name, seq![a]);
    let sb = overload_symbol(name, seq![b]);
    assert(seq![a].last() == a);
    assert(seq![b].last() == b);
    assert(params_tag(Seq::<TypeModel>::empty()) == Seq::<char>::empty());
    assert(params_tag(seq![a].drop_last()) == Seq::<char>::empty());
    assert(params_tag(seq![b].drop_last()) == Seq::<char>::empty());
    assert(params_tag(seq![a]) =~= "$"@ + mangle_tag(a));
    assert(params_tag(seq![b]) =~= "$"@ + mangle_tag(b));
    assert(sa =~= base + "$"@ + mangle_tag(a));
    assert(sb =~= base + "$"@ + mangle_tag(b));
    reveal_strlit("$");
    if sa == sb {
        assert(sa.subrange(base.len() + 1int, sa.len() as int) =~= mangle_tag(a));
        assert(sb.subrange(base.len() + 1int, sb.len() as int) =~= mangle_tag(b));
    }
}

/// The symbol of a record type's method: `Type_method`.
pub open spec fn method_symbol_of(record: Seq<char>, method: Seq<char>) -> Seq<char> {
    record + "_"@ + method
}

/// The symbol a method of a named record type is emitted under.
pub fn method_symbol(record: &str, method: &str) -> (r: String)
    ensures
        r@ == method_symbol_of(record@, method@),
{
    let mut s = String::from_str(record);
    s.append("_");
    s.append(method);
    s
}

/// The label of a type as diagnostics write it: `Num`, `Text`, `Bool`, `$`, `[]T`, a
/// named type by its name, a function as `(A, B) -> R`.
pub open spec fn type_label(t: TypeModel) -> Seq<char>
    decreases t,
{
    match t {
        TypeModel::Num => "Num"@,
        TypeModel::Text => "Text"@,
        TypeModel::Bool => "Bool"@,
        TypeModel::Unit => "$"@,
        TypeModel::Array(elem) => "[]"@ + type_label(*elem),
        TypeModel::Named { name } => name,
        TypeModel::Sum { name, .. } => name,
        TypeModel::Generic { name } => name,
        TypeModel::Function { params, ret } => "("@ + labels_joined(params) + ") -> "@
            + type_label(*ret),
    }
}

/// Type labels joined with `, `.
pub open spec fn labels_joined(ts: Seq<TypeModel>) -> Seq<char>
    decreases ts,
{
    if ts.len() == 0 {
        Seq::empty()
    } else if ts.len() == 1 {
        type_label(ts[0])
    } else {
        labels_joined(ts.drop_last()) + ", "@ + type_label(ts.last())
    }
}

/// Join the labels of a vector of types with `, `.
#[verifier::loop_isolation(false)]
fn labels_text(ts: &Vec<Type>) -> (r: String)
    ensures
        r@ == labels_joined(type_models(ts@)),
    decreases ts, 1int,
{
    proof {
        lemma_type_models(ts@);
    }
    let mut s = String::new();
    let mut i: usize = 0;
    while i < ts.len()
        invariant
            i <= ts.len(),
            s@ == labels_joined(type_models(ts@).take(i as int)),
        decreases ts.len() - i,
    {
        let ghost ms = type_models(ts@);
        assert(ms.take(i + 1).drop_last() =~= ms.take(i as int));
        assert(ms.take(i + 1).last() == ts@[i as int]@);
        assert(decreases_to!(*ts => ts[i as int]));
        let label = type_label_text(&ts[i]);
        if i == 0 {
            assert(ms.take(1) =~= seq![ms[0]]);
            s = label;
        } else {
            s.append(", ");
            s.append(label.as_str());
        }
        i += 1;
    }
    assert(type_models(ts@).take(ts@.len() as int) =~= type_models(ts@));
    s
}

/// The label of a type as diagnostics write it.
pub fn type_label_text(t: &Type) -> (r: String)
    ensures
        r@ == type_label(t@),
    decreases t, 0int,
{
    match t {
        Type::Num => String::from_str("Num"),
        Type::Text => String::from_str("Text"),
        Type::Bool => String::from_str("Bool"),
        Type::Unit => String::from_str("$"),
        Type::Array(elem) => {
            let mut s = String::from_str("[]");
            let inner = type_label_text(elem);
            s.append(inner.as_str());
            s
        },
        Type::Named { name } | Type::Sum { name, .. } | Type::Generic { name } => name.clone(),
        Type::Function { params, ret } => {
            let mut s = String::from_str("(");
            let ps = labels_text(params);
            s.append(ps.as_str());
            s.append(") -> ");
            let r = type_label_text(ret);
            s.append(r.as_str());
            s
        },
    }
}

/// Render an entry point's declared parameter types as a readable signature fragment
/// (comma-joined `Num`/`Text`/`[]Text`-style labels) for the unsupported-signature
/// diagnostic. `()` renders as an empty string.
pub fn fmt_param_types(params: &Vec<Type>) -> (r: String)
    ensures
        r@ == labels_joined(type_models(params@)),
{
    labels_text(params)
}

} // verus!
