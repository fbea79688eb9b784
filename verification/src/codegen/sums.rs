//! Sum types as tagged unions: `{ i8 tag, slot0, slot1, ... }`.
//!
//! A user sum type has a registered canonical layout, sized to its widest variant, so
//! every value of the type shares one struct shape. `Result` has none: a `Result` value
//! is sized to its actual payload. `Num`/`Bool` payloads are normalized to `double`; a
//! `$` payload is zero-sized and is stored as a zero of its slot type.

use vstd::prelude::*;
use vstd::string::*;
use crate::ast::{lemma_type_models, lemma_variant_models, type_models, variant_models, SumVariant, Type, TypeModel, VariantModel};
use crate::codegen::calls::{lookup_variant, variant_names_unique};
use crate::codegen::ir::{
    copy_ir_types, i8_model, ir_models, ir_type_eq, lemma_ir_models,
    lemma_ir_models_ext, IrModel, IrType,
};

verus! {

broadcast use vstd::std_specs::vec::group_vec_axioms;

/// The slot type of a `Result` payload sized to its value: a non-`i1` integer widens to
/// `double`, everything else keeps its own type.
pub open spec fn payload_slot(v: IrModel) -> IrModel {
    match v {
        IrModel::Int { bits } => if bits != 1 {
            IrModel::F64
        } else {
            v
        },
        _ => v,
    }
}

/// The slot type for a `Result` payload sized to its actual value.
pub fn payload_slot_type(value: &IrType) -> (r: IrType)
    ensures
        r@ == payload_slot(value@),
{
    match value {
        IrType::Int { bits } if *bits != 1 => IrType::F64,
        other => other.duplicate(),
    }
}

/// How a payload value is stored into its slot.
#[derive(Debug, Clone, Copy, PartialEq, Eq, Structural)]
pub enum Coercion {
    /// An integer (the unit `i8` included) converted, unsigned, to `double`.
    IntToFloat,
    /// Stored unchanged: the value already has the slot type.
    AsIs,
    /// A `$` value (the zero `i8`) stored as the zero of the slot type.
    Zeroed,
}

/// The message for a payload that fits its slot in no way, given the code generator's
/// spelling of the payload's type and of the slot's type.
pub open spec fn misfit_message(value_text: Seq<char>, slot_text: Seq<char>) -> Seq<char> {
    "internal error: sum-type payload of type "@ + value_text + " does not fit slot "@
        + slot_text
}

/// Build the misfit message from the spellings of the two types.
pub fn misfit_text(value_text: &str, slot_text: &str) -> (r: String)
    ensures
        r@ == misfit_message(value_text@, slot_text@),
{
    let mut m = String::from_str("internal error: sum-type payload of type ");
    m.append(value_text);
    m.append(" does not fit slot ");
    m.append(slot_text);
    m
}

/// How a payload of type `v` goes into a slot of type `slot`; an error when it fits in
/// no way.
pub open spec fn coerce(v: IrModel, slot: IrModel) -> Result<Coercion, ()> {
    if v is Int && slot is F64 {
        Ok(Coercion::IntToFloat)
    } else if v == slot {
        Ok(Coercion::AsIs)
    } else if v == i8_model() {
        Ok(Coercion::Zeroed)
    } else {
        Err(())
    }
}

/// How a payload of machine type `value` goes into a slot of type `slot_ty`.
fn coerce_kind(value: &IrType, slot_ty: &IrType) -> (r: Result<Coercion, ()>)
    ensures
        r == coerce(value@, slot_ty@),
{
    let is_int = match value {
        IrType::Int { .. } => true,
        _ => false,
    };
    if is_int && slot_ty.is_float() {
        return Ok(Coercion::IntToFloat);
    }
    if ir_type_eq(value, slot_ty) {
        return Ok(Coercion::AsIs);
    }
    if ir_type_eq(value, &IrType::Int { bits: 8 }) {
        return Ok(Coercion::Zeroed);
    }
    Err(())
}

/// Coerce a payload value to its target slot type. Integers widen to `double` for a
/// numeric slot; a `$` value targeting another slot becomes that slot's zero; a value
/// already of the slot type passes through. The type checker guarantees concrete payload
/// types agree per position, so any other mismatch is an internal error, surfaced rather
/// than silently zeroed; its message names the two types as the code generator spells
/// them (`value_text`, `slot_text`).
pub fn coerce_payload(value: &IrType, slot_ty: &IrType, value_text: &str, slot_text: &str) -> (r:
    Result<Coercion, String>)
    ensures
        match (r, coerce(value@, slot_ty@)) {
            (Ok(c), Ok(d)) => c == d,
            (Err(m), Err(())) => m@ == misfit_message(value_text@, slot_text@),
            _ => false,
        },
{
    match coerce_kind(value, slot_ty) {
        Ok(c) => Ok(c),
        Err(()) => Err(misfit_text(value_text, slot_text)),
    }
}

/// The `{ i8 tag, elem }` struct that `find`/`at` return.
pub open spec fn result_struct(elem: IrModel) -> IrModel {
    IrModel::Struct { fields: seq![i8_model(), elem] }
}

/// The `{ i8 tag, elem }` struct that `find`/`at` return: a per-element-typed `Result`
/// whose single payload slot holds the element.
pub fn result_struct_type(elem: &IrType) -> (r: IrType)
    ensures
        r@ == result_struct(elem@),
{
    let fields = vec![IrType::Int { bits: 8 }, elem.duplicate()];
    proof {
        lemma_ir_models_ext(fields@, seq![i8_model(), elem@]);
    }
    IrType::Struct { fields }
}

/// No sum type has two registered layouts.
pub open spec fn layout_names_unique(layouts: Seq<(Seq<char>, Seq<IrModel>)>) -> bool {
    forall|i: int, j: int| 0 <= i < j < layouts.len() ==> #[trigger] layouts[i].0 != #[trigger] layouts[j].0
}

/// The registered canonical layout of sum type `name`, if it has one.
pub open spec fn lookup_layout(layouts: Seq<(Seq<char>, Seq<IrModel>)>, name: Seq<char>) -> Option<
    Seq<IrModel>,
>
    decreases layouts.len(),
{
    if layouts.len() == 0 {
        None
    } else if layouts[0].0 == name {
        Some(layouts[0].1)
    } else {
        lookup_layout(layouts.drop_first(), name)
    }
}

/// The mathematical value of a table of registered layouts.
pub open spec fn layouts_model(layouts: Seq<(String, Vec<IrType>)>) -> Seq<(Seq<char>, Seq<IrModel>)> {
    layouts.map_values(|e: (String, Vec<IrType>)| (e.0@, ir_models(e.1@)))
}

/// The registered layout of sum type `name`, if it has one.
fn find_layout<'a>(layouts: &'a Vec<(String, Vec<IrType>)>, name: &str) -> (r: Option<&'a Vec<IrType>>)
    ensures
        match r {
            Some(l) => lookup_layout(layouts_model(layouts@), name@) == Some(ir_models(l@)),
            None => lookup_layout(layouts_model(layouts@), name@) is None,
        },
{
    let key = String::from_str(name);
    let ghost m = layouts_model(layouts@);
    assert(m.subrange(0, m.len() as int) =~= m);
    let mut i: usize = 0;
    while i < layouts.len()
        invariant
            i <= layouts@.len(),
            key@ == name@,
            m == layouts_model(layouts@),
            lookup_layout(m, name@) == lookup_layout(m.subrange(i as int, m.len() as int), name@),
        decreases layouts@.len() - i,
    {
        let ghost rest = m.subrange(i as int, m.len() as int);
        assert(rest.drop_first() =~= m.subrange(i + 1, m.len() as int));
        assert(rest[0] == m[i as int]);
        if layouts[i].0 == key {
            return Some(&layouts[i].1);
        }
        i += 1;
    }
    None
}

/// The tagged-union struct of sum type `name`: the tag, then its registered slots; an
/// unregistered name (e.g. `Result`) falls back to `{ i8, double }`.
pub open spec fn sum_struct(layouts: Seq<(Seq<char>, Seq<IrModel>)>, name: Seq<char>) -> IrModel {
    match lookup_layout(layouts, name) {
        Some(l) => IrModel::Struct { fields: seq![i8_model()] + l },
        None => IrModel::Struct { fields: seq![i8_model(), IrModel::F64] },
    }
}

/// A one-element vector holding `i8`, followed by copies of `rest`.
fn tag_then(rest: &Vec<IrType>) -> (r: Vec<IrType>)
    ensures
        ir_models(r@) == seq![i8_model()] + ir_models(rest@),
{
    let mut fields = vec![IrType::Int { bits: 8 }];
    let copied = copy_ir_types(rest);
    let mut i: usize = 0;
    proof {
        lemma_ir_models(rest@);
        lemma_ir_models(copied@);
    }
    while i < copied.len()
        invariant
            i <= copied@.len(),
            fields@.len() == i + 1,
            fields@[0]@ == i8_model(),
            ir_models(copied@) == ir_models(rest@),
            ir_models(copied@).len() == copied@.len(),
            forall|j: int| 0 <= j < copied@.len() ==> #[trigger] ir_models(copied@)[j] == copied@[j]@,
            forall|j: int| 1 <= j <= i ==> #[trigger] fields@[j]@ == copied@[j - 1]@,
        decreases copied@.len() - i,
    {
        fields.push(copied[i].duplicate());
        i += 1;
    }
    proof {
        lemma_ir_models(fields@);
        assert(ir_models(fields@) =~= seq![i8_model()] + ir_models(rest@));
    }
    fields
}

/// The tagged-union struct for sum type `name`: `{ i8 tag, slot0, slot1, ... }`, the
/// slots from the registered canonical payload layout. Falls back to the `Result`-style
/// `{ i8, double }` for an unregistered name.
pub fn sum_struct_type(layouts: &Vec<(String, Vec<IrType>)>, name: &str) -> (r: IrType)
    requires
        layout_names_unique(layouts_model(layouts@)),
    ensures
        r@ == sum_struct(layouts_model(layouts@), name@),
{
    match find_layout(layouts, name) {
        Some(l) => IrType::Struct { fields: tag_then(l) },
        None => {
            let fields = vec![IrType::Int { bits: 8 }, IrType::F64];
            proof {
                lemma_ir_models_ext(fields@, seq![i8_model(), IrModel::F64]);
            }
            IrType::Struct { fields }
        },
    }
}

/// Whether a payload field type is concrete: neither a not-yet-concrete `Generic` nor
/// the zero-sized `$`.
pub open spec fn concrete(t: TypeModel) -> bool {
    !(t is Generic) && !(t is Unit)
}

/// The number of payload slots: the widest variant's field count.
pub open spec fn max_fields(vs: Seq<VariantModel>) -> nat
    decreases vs.len(),
{
    if vs.len() == 0 {
        0
    } else {
        let m = max_fields(vs.drop_last());
        if vs.last().fields.len() > m {
            vs.last().fields.len()
        } else {
            m
        }
    }
}

/// The first concrete field at position `i` among the variants, in declaration order.
pub open spec fn first_concrete(vs: Seq<VariantModel>, i: int) -> Option<TypeModel>
    decreases vs.len(),
{
    if vs.len() == 0 {
        None
    } else if i < vs[0].fields.len() && concrete(vs[0].fields[i]) {
        Some(vs[0].fields[i])
    } else {
        first_concrete(vs.drop_first(), i)
    }
}

/// `max_fields` bounds every variant's field count and is reached by one.
proof fn lemma_max_fields(vs: Seq<VariantModel>)
    ensures
        forall|k: int| 0 <= k < vs.len() ==> (#[trigger] vs[k]).fields.len() <= max_fields(vs),
        vs.len() > 0 ==> exists|k: int| 0 <= k < vs.len() && vs[k].fields.len() == max_fields(vs),
        vs.len() == 0 ==> max_fields(vs) == 0,
    decreases vs.len(),
{
    if vs.len() > 0 {
        lemma_max_fields(vs.drop_last());
        assert forall|k: int| 0 <= k < vs.len() implies (#[trigger] vs[k]).fields.len()
            <= max_fields(vs) by {
            if k < vs.len() - 1 {
                assert(vs[k] == vs.drop_last()[k]);
            }
        }
        if vs.drop_last().len() > 0 && max_fields(vs) == max_fields(vs.drop_last()) {
            let k = choose|k: int|
                0 <= k < vs.drop_last().len() && vs.drop_last()[k].fields.len() == max_fields(
                    vs.drop_last(),
                );
            assert(vs[k] == vs.drop_last()[k]);
        }
        if max_fields(vs) != max_fields(vs.drop_last()) || vs.len() == 1 {
            assert(vs[vs.len() - 1].fields.len() == max_fields(vs));
        }
    }
}

/// The concrete type each payload slot of a sum value carries, from its variants: for
/// slot `i`, the first field at position `i` that is neither `Generic` nor `$` (the
/// checker guarantees the concrete fields at one position agree), or `None` when the
/// slot is only generic, unit or absent. There are as many slots as the widest variant
/// has fields.
pub fn concrete_slots(variants: &Vec<SumVariant>) -> (r: Vec<Option<Type>>)
    ensures
        r@.len() == max_fields(variant_models(variants@)),
        forall|i: int|
            0 <= i < r@.len() ==> match (#[trigger] r@[i], first_concrete(
                variant_models(variants@),
                i,
            )) {
                (Some(t), Some(u)) => t@ == u,
                (None, None) => true,
                _ => false,
            },
{
    let ghost vs = variant_models(variants@);
    proof {
        lemma_variant_models(variants@);
        lemma_max_fields(vs);
    }
    let mut width: usize = 0;
    let mut k: usize = 0;
    let ghost mut witness: int = 0;
    while k < variants.len()
        invariant
            k <= variants@.len(),
            vs == variant_models(variants@),
            vs.len() == variants@.len(),
            forall|j: int| 0 <= j < variants@.len() ==> #[trigger] vs[j] == variants@[j]@,
            forall|j: int| 0 <= j < k ==> (#[trigger] vs[j]).fields.len() <= width,
            k == 0 ==> width == 0,
            k > 0 ==> 0 <= witness < k && vs[witness].fields.len() == width,
        decreases variants@.len() - k,
    {
        proof {
            lemma_type_models(variants@[k as int].fields@);
            assert(vs[k as int].fields.len() == variants@[k as int].fields@.len());
        }
        if variants[k].fields.len() > width || k == 0 {
            width = variants[k].fields.len();
            proof {
                witness = k as int;
            }
        }
        k += 1;
    }
    proof {
        if vs.len() > 0 {
            let j = witness;
            let q = choose|q: int| 0 <= q < vs.len() && vs[q].fields.len() == max_fields(vs);
            assert(vs[q].fields.len() <= width);
            assert(vs[j].fields.len() <= max_fields(vs));
        }
    }
    let mut out: Vec<Option<Type>> = Vec::new();
    let mut i: usize = 0;
    while i < width
        invariant
            i <= width,
            width == max_fields(vs),
            vs == variant_models(variants@),
            vs.len() == variants@.len(),
            forall|j: int| 0 <= j < variants@.len() ==> #[trigger] vs[j] == variants@[j]@,
            out@.len() == i,
            forall|p: int|
                0 <= p < i ==> match (#[trigger] out@[p], first_concrete(vs, p)) {
                    (Some(t), Some(u)) => t@ == u,
                    (None, None) => true,
                    _ => false,
                },
        decreases width - i,
    {
        assert(vs.subrange(0, vs.len() as int) =~= vs);
        let mut found: Option<Type> = None;
        let mut k: usize = 0;
        while k < variants.len()
            invariant
                i < width,
                k <= variants@.len(),
                vs == variant_models(variants@),
                vs.len() == variants@.len(),
                forall|j: int| 0 <= j < variants@.len() ==> #[trigger] vs[j] == variants@[j]@,
                found is None ==> first_concrete(vs, i as int) == first_concrete(
                    vs.subrange(k as int, vs.len() as int),
                    i as int,
                ),
                found matches Some(t) ==> first_concrete(vs, i as int) == Some(t@),
            decreases variants@.len() - k,
        {
            if found.is_none() {
                let ghost rest = vs.subrange(k as int, vs.len() as int);
                assert(rest.drop_first() =~= vs.subrange(k + 1, vs.len() as int));
                assert(rest[0] == vs[k as int]);
                let fields = &variants[k].fields;
                proof {
                    lemma_type_models(fields@);
                }
                if i < fields.len() {
                    let f = &fields[i];
                    let is_concrete = match f {
                        Type::Generic { .. } | Type::Unit => false,
                        _ => true,
                    };
                    if is_concrete {
                        found = Some(f.duplicate());
                    }
                }
            }
            k += 1;
        }
        out.push(found);
        i += 1;
    }
    out
}

/// The tagged-union struct of a value of sum type `name`: a user sum type (or one
/// without variants) uses `sum_struct`; a `Result` takes each slot from the machine type
/// of that slot's concrete payload (`slot_types[i]`), or `double` for a slot that is only
/// generic, unit or absent.
pub open spec fn sum_value_struct(
    layouts: Seq<(Seq<char>, Seq<IrModel>)>,
    name: Seq<char>,
    variant_count: nat,
    slot_types: Seq<Option<IrModel>>,
) -> IrModel {
    if lookup_layout(layouts, name) is Some || variant_count == 0 {
        sum_struct(layouts, name)
    } else {
        IrModel::Struct {
            fields: seq![i8_model()] + Seq::new(
                slot_types.len(),
                |i: int|
                    match slot_types[i] {
                        Some(t) => t,
                        None => IrModel::F64,
                    },
            ),
        }
    }
}

/// The tagged-union struct for a sum-typed value. A user sum type has a registered
/// canonical layout; the built-in `Result` has none, so its slot types are recovered
/// from the concrete payloads its variants carry (`slot_types`: for each slot of
/// `concrete_slots`, the machine representation of that slot's concrete type). This
/// agrees with the per-value shape `sum_constructor` builds for a `Result`.
pub fn sum_value_struct_type(
    layouts: &Vec<(String, Vec<IrType>)>,
    name: &str,
    variants: &Vec<SumVariant>,
    slot_types: &Vec<Option<IrType>>,
) -> (r: IrType)
    requires
        layout_names_unique(layouts_model(layouts@)),
    ensures
        r@ == sum_value_struct(
            layouts_model(layouts@),
            name@,
            variants@.len() as nat,
            slot_types@.map_values(
                |o: Option<IrType>|
                    match o {
                        Some(t) => Some(t@),
                        None => None,
                    },
            ),
        ),
{
    if find_layout(layouts, name).is_some() || variants.len() == 0 {
        return sum_struct_type(layouts, name);
    }
    let ghost sm = slot_types@.map_values(
        |o: Option<IrType>|
            match o {
                Some(t) => Some(t@),
                None => None,
            },
    );
    let mut fields: Vec<IrType> = vec![IrType::Int { bits: 8 }];
    let mut i: usize = 0;
    while i < slot_types.len()
        invariant
            i <= slot_types@.len(),
            sm == slot_types@.map_values(
                |o: Option<IrType>|
                    match o {
                        Some(t) => Some(t@),
                        None => None,
                    },
            ),
            fields@.len() == i + 1,
            fields@[0]@ == i8_model(),
            forall|j: int|
                1 <= j <= i ==> #[trigger] fields@[j]@ == match sm[j - 1] {
                    Some(t) => t,
                    None => IrModel::F64,
                },
        decreases slot_types@.len() - i,
    {
        let slot = match &slot_types[i] {
            Some(t) => t.duplicate(),
            None => IrType::F64,
        };
        fields.push(slot);
        i += 1;
    }
    proof {
        lemma_ir_models(fields@);
        let expected = seq![i8_model()] + Seq::new(
            sm.len(),
            |k: int|
                match sm[k] {
                    Some(t) => t,
                    None => IrModel::F64,
                },
        );
        assert(ir_models(fields@) =~= expected);
    }
    IrType::Struct { fields }
}

/// A payload argument of a sum constructor: its machine type, and whether the argument
/// expression is the unit value `$`.
#[derive(Debug)]
pub struct Payload {
    pub ty: IrType,
    pub is_unit: bool,
}

/// The slot type for payload `pos`: fixed by position in a registered layout; otherwise
/// (a `Result`) following the value, with a `$` payload taking the canonical `double`.
pub open spec fn slot_for(layout: Option<Seq<IrModel>>, v: IrModel, is_unit: bool, pos: int) -> IrModel {
    match layout {
        Some(l) if pos < l.len() => l[pos],
        _ => if is_unit {
            IrModel::F64
        } else {
            payload_slot(v)
        },
    }
}

/// The first payload among the first `n` that fits its slot in no way: its position
/// and its slot's type.
pub open spec fn first_misfit(layout: Option<Seq<IrModel>>, payloads: Seq<(IrModel, bool)>, n: int) -> Option<
    (int, IrModel),
>
    decreases n,
{
    if n <= 0 {
        None
    } else {
        match first_misfit(layout, payloads, n - 1) {
            Some(m) => Some(m),
            None => match coerce(
                payloads[n - 1].0,
                slot_for(layout, payloads[n - 1].0, payloads[n - 1].1, n - 1),
            ) {
                Err(()) => Some((n - 1, slot_for(layout, payloads[n - 1].0, payloads[n - 1].1, n - 1))),
                Ok(_) => None,
            },
        }
    }
}

/// Once a misfit is found among the first `n` payloads, looking further finds the same.
proof fn lemma_first_misfit_stable(
    layout: Option<Seq<IrModel>>,
    payloads: Seq<(IrModel, bool)>,
    n: int,
    m: int,
)
    requires
        0 <= n <= m,
        first_misfit(layout, payloads, n) is Some,
    ensures
        first_misfit(layout, payloads, m) == first_misfit(layout, payloads, n),
    decreases m - n,
{
    if n < m {
        lemma_first_misfit_stable(layout, payloads, n, m - 1);
    }
}

/// The message for a payload beyond the end of a registered layout: inserting it into
/// the struct fails with the builder's out-of-range error.
pub open spec fn insert_failure() -> Seq<char> {
    "Failed to insert payload: Aggregate extract index out of range"@
}

/// Why a sum value cannot be constructed.
#[derive(Debug)]
pub enum SumError {
    /// Payload `payload` fits its slot, of type `slot`, in no way; the message names the
    /// two types as the code generator spells them (see [`misfit_text`]).
    Misfit { payload: usize, slot: IrType },
    /// Construction failed with this message.
    Failed(String),
}

/// The mathematical value of a [`SumError`].
pub enum SumErrorModel {
    Misfit { payload: int, slot: IrModel },
    Failed(Seq<char>),
}

impl View for SumError {
    type V = SumErrorModel;

    open spec fn view(&self) -> SumErrorModel {
        match self {
            SumError::Misfit { payload, slot } => SumErrorModel::Misfit {
                payload: *payload as int,
                slot: slot@,
            },
            SumError::Failed(m) => SumErrorModel::Failed(m@),
        }
    }
}

/// A constructed sum value: its struct type, its tag, and how each payload is stored.
#[derive(Debug)]
pub struct SumValue {
    pub struct_type: IrType,
    pub tag: u8,
    pub coercions: Vec<Coercion>,
}

/// The value `Variant(args...)` of sum type `name`, with variant tag `tag`. Each payload
/// goes into its slot (coerced as `coerce` says); the struct is the tag followed by the
/// registered layout, or, for a `Result`, by the payloads' own slot types. A payload
/// that fits its slot in no way is an error, and so is a payload beyond the end of a
/// registered layout.
pub open spec fn sum_value(layout: Option<Seq<IrModel>>, payloads: Seq<(IrModel, bool)>) -> Result<
    (IrModel, Seq<Coercion>),
    SumErrorModel,
> {
    match first_misfit(layout, payloads, payloads.len() as int) {
        Some((i, slot)) => Err(SumErrorModel::Misfit { payload: i, slot }),
        None => match layout {
            Some(l) if payloads.len() > l.len() => Err(SumErrorModel::Failed(insert_failure())),
            _ => Ok(
                (
                    IrModel::Struct {
                        fields: seq![i8_model()] + match layout {
                            Some(l) => l,
                            None => Seq::new(
                                payloads.len(),
                                |i: int| slot_for(layout, payloads[i].0, payloads[i].1, i),
                            ),
                        },
                    },
                    Seq::new(
                        payloads.len(),
                        |i: int|
                            coerce(
                                payloads[i].0,
                                slot_for(layout, payloads[i].0, payloads[i].1, i),
                            )->Ok_0,
                    ),
                ),
            ),
        },
    }
}

/// The mathematical value of a list of payloads.
pub open spec fn payloads_model(ps: Seq<Payload>) -> Seq<(IrModel, bool)> {
    ps.map_values(|p: Payload| (p.ty@, p.is_unit))
}

/// Construct a value of sum type `name` with variant tag `tag` from payload arguments
/// of the given machine types.
pub fn sum_constructor(
    layouts: &Vec<(String, Vec<IrType>)>,
    name: &str,
    tag: u8,
    payloads: &Vec<Payload>,
) -> (r: Result<SumValue, SumError>)
    requires
        layout_names_unique(layouts_model(layouts@)),
    ensures
        match (r, sum_value(lookup_layout(layouts_model(layouts@), name@), payloads_model(payloads@))) {
            (Ok(v), Ok((st, cs))) => v.struct_type@ == st && v.tag == tag && v.coercions@ == cs,
            (Err(e), Err(f)) => e@ == f,
            _ => false,
        },
{
    let layout = find_layout(layouts, name);
    let ghost lm: Option<Seq<IrModel>> = match layout {
        Some(l) => Some(ir_models(l@)),
        None => None,
    };
    let ghost pm = payloads_model(payloads@);
    proof {
        if let Some(l) = layout {
            lemma_ir_models(l@);
        }
    }
    let mut slots: Vec<IrType> = Vec::new();
    let mut coercions: Vec<Coercion> = Vec::new();
    let mut i: usize = 0;
    while i < payloads.len()
        invariant
            i <= payloads@.len(),
            pm == payloads_model(payloads@),
            lm == lookup_layout(layouts_model(layouts@), name@),
            lm == match layout {
                Some(l) => Some(ir_models(l@)),
                None => None::<Seq<IrModel>>,
            },
            layout matches Some(l) ==> ir_models(l@).len() == l@.len() && forall|j: int|
                0 <= j < l@.len() ==> #[trigger] ir_models(l@)[j] == l@[j]@,
            first_misfit(lm, pm, i as int) is None,
            slots@.len() == i,
            coercions@.len() == i,
            forall|j: int|
                0 <= j < i ==> (#[trigger] slots@[j])@ == slot_for(lm, pm[j].0, pm[j].1, j),
            forall|j: int|
                0 <= j < i ==> coerce(pm[j].0, slot_for(lm, pm[j].0, pm[j].1, j)) == Ok::<
                    Coercion,
                    (),
                >(#[trigger] coercions@[j]),
        decreases payloads@.len() - i,
    {
        let p = &payloads[i];
        let slot_ty = match layout {
            Some(l) if i < l.len() => l[i].duplicate(),
            _ => if p.is_unit {
                IrType::F64
            } else {
                payload_slot_type(&p.ty)
            },
        };
        assert(pm[i as int] == (p.ty@, p.is_unit));
        match coerce_kind(&p.ty, &slot_ty) {
            Ok(c) => {
                coercions.push(c);
                slots.push(slot_ty);
            },
            Err(()) => {
                proof {
                    assert(first_misfit(lm, pm, i + 1) == Some((i as int, slot_ty@)));
                    lemma_first_misfit_stable(lm, pm, i + 1, pm.len() as int);
                }
                return Err(SumError::Misfit { payload: i, slot: slot_ty });
            },
        }
        i += 1;
    }
    if let Some(l) = layout {
        if payloads.len() > l.len() {
            return Err(SumError::Failed(
                String::from_str("Failed to insert payload: Aggregate extract index out of range"),
            ));
        }
    }
    let fields = match layout {
        Some(l) => tag_then(l),
        None => tag_then(&slots),
    };
    proof {
        lemma_ir_models(slots@);
        if layout is None {
            assert(ir_models(slots@) =~= Seq::new(
                pm.len(),
                |j: int| slot_for(lm, pm[j].0, pm[j].1, j),
            ));
        }
        assert(coercions@ =~= Seq::new(
            pm.len(),
            |j: int| coerce(pm[j].0, slot_for(lm, pm[j].0, pm[j].1, j))->Ok_0,
        ));
    }
    Ok(SumValue { struct_type: IrType::Struct { fields }, tag, coercions })
}

/// The tag a `Result` variant is registered under.
pub open spec fn result_tag(variants: Seq<(Seq<char>, u8, Seq<char>)>, variant: Seq<char>) -> Option<
    u8,
>
    decreases variants.len(),
{
    if variants.len() == 0 {
        None
    } else if variants[0].0 == variant {
        Some(variants[0].1)
    } else {
        result_tag(variants.drop_first(), variant)
    }
}

/// Construction and matching read one registry: the tag `build_result` gives a
/// `Result` variant is the tag a call of that variant's constructor resolves to.
pub proof fn law_result_tag_is_the_constructor_tag(
    variants: Seq<(Seq<char>, u8, Seq<char>)>,
    variant: Seq<char>,
)
    ensures
        result_tag(variants, variant) == match lookup_variant(variants, variant) {
            Some((tag, _)) => Some(tag),
            None => None,
        },
    decreases variants.len(),
{
    if variants.len() > 0 {
        law_result_tag_is_the_constructor_tag(variants.drop_first(), variant);
    }
}

/// A `Result` value and its type agree: when each payload's slot type is the machine
/// type of that slot's concrete payload (a `$` payload, the zero `i8`, and a slot with
/// no concrete payload both standing for `double`), the value `sum_constructor` builds
/// has the struct type that `sum_value_struct_type` gives the `Result`.
pub proof fn law_result_value_matches_its_type(
    layouts: Seq<(Seq<char>, Seq<IrModel>)>,
    name: Seq<char>,
    variant_count: nat,
    payloads: Seq<(IrModel, bool)>,
    slot_types: Seq<Option<IrModel>>,
)
    requires
        lookup_layout(layouts, name) is None,
        variant_count > 0,
        payloads.len() == slot_types.len(),
        forall|i: int|
            0 <= i < payloads.len() ==> #[trigger] slot_for(None, payloads[i].0, payloads[i].1, i)
                == match slot_types[i] {
                Some(t) => t,
                None => IrModel::F64,
            },
        forall|i: int| 0 <= i < payloads.len() && (#[trigger] payloads[i]).1 ==> payloads[i].0 == i8_model(),
    ensures
        sum_value(lookup_layout(layouts, name), payloads) matches Ok((st, _)) && st == sum_value_struct(
            layouts,
            name,
            variant_count,
            slot_types,
        ),
{
    assert forall|n: int| 0 <= n <= payloads.len() implies first_misfit(None, payloads, n) is None by {
        lemma_result_payloads_fit(payloads, n);
    }
    let built = seq![i8_model()] + Seq::new(
        payloads.len(),
        |i: int| slot_for(None, payloads[i].0, payloads[i].1, i),
    );
    let typed = seq![i8_model()] + Seq::new(
        slot_types.len(),
        |i: int|
            match slot_types[i] {
                Some(t) => t,
                None => IrModel::F64,
            },
    );
    assert(built =~= typed);
}

/// Without a layout, every payload fits the slot sized to it.
proof fn lemma_result_payloads_fit(payloads: Seq<(IrModel, bool)>, n: int)
    requires
        0 <= n <= payloads.len(),
        forall|i: int| 0 <= i < payloads.len() && (#[trigger] payloads[i]).1 ==> payloads[i].0 == i8_model(),
    ensures
        first_misfit(None, payloads, n) is None,
    decreases n,
{
    if n > 0 {
        lemma_result_payloads_fit(payloads, n - 1);
        let v = payloads[n - 1].0;
        if payloads[n - 1].1 {
            assert(v == i8_model());
        }
        assert(coerce(v, slot_for(None, v, payloads[n - 1].1, n - 1)) is Ok);
    }
}

/// The `{ i8 tag, payload }` value that `find`/`at` return, tagged as `Result` variant
/// `variant` (`"Ok"` / `"NotOk"`): its struct type and tag. The tag is read from the
/// shared sum-variant registry, the same source pattern matching uses, so construction
/// and matching never drift apart. The variant must be registered.
pub fn build_result(
    sum_variants: &Vec<(String, u8, String)>,
    elem: &IrType,
    variant: &str,
) -> (r: (IrType, u8))
    requires
        variant_names_unique(sum_variants@.map_values(|e: (String, u8, String)| (e.0@, e.1, e.2@))),
        result_tag(
            sum_variants@.map_values(|e: (String, u8, String)| (e.0@, e.1, e.2@)),
            variant@,
        ) is Some,
    ensures
        r.0@ == result_struct(elem@),
        Some(r.1) == result_tag(
            sum_variants@.map_values(|e: (String, u8, String)| (e.0@, e.1, e.2@)),
            variant@,
        ),
{
    let key = String::from_str(variant);
    let ghost m = sum_variants@.map_values(|e: (String, u8, String)| (e.0@, e.1, e.2@));
    assert(m.subrange(0, m.len() as int) =~= m);
    let mut i: usize = 0;
    while i < sum_variants.len()
        invariant
            i <= sum_variants@.len(),
            key@ == variant@,
            m == sum_variants@.map_values(|e: (String, u8, String)| (e.0@, e.1, e.2@)),
            result_tag(m, variant@) == result_tag(m.subrange(i as int, m.len() as int), variant@),
            result_tag(m, variant@) is Some,
        decreases sum_variants@.len() - i,
    {
        let ghost rest = m.subrange(i as int, m.len() as int);
        assert(rest.drop_first() =~= m.subrange(i + 1, m.len() as int));
        assert(rest[0] == m[i as int]);
        if sum_variants[i].0 == key {
            return (result_struct_type(elem), sum_variants[i].1);
        }
        i += 1;
    }
    proof {
        assert(m.subrange(i as int, m.len() as int) =~= Seq::<(Seq<char>, u8, Seq<char>)>::empty());
    }
    (result_struct_type(elem), 0)
}

} // verus!
