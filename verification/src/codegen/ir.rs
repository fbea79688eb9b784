//! The machine types the code generator lowers Quilon values to: integers of a bit
//! width, `double`, opaque pointers, structs and fixed arrays, and function signatures.

use vstd::prelude::*;
use vstd::string::*;
use crate::text::{decimal, decimal_text};

verus! {

broadcast use vstd::std_specs::vec::group_vec_axioms;

/// A first-class machine type.
#[derive(Debug)]
pub enum IrType {
    /// An integer of `bits` bits (`i1` is a `Bool`, `i8` the unit value, `i64` a length).
    Int { bits: u32 },
    /// `double`: the representation of a `Num`.
    F64,
    /// An opaque pointer.
    Ptr,
    /// A struct of the given field types.
    Struct { fields: Vec<IrType> },
    /// A fixed-length array.
    Array { elem: Box<IrType>, len: usize },
}

/// The mathematical value of an [`IrType`].
pub enum IrModel {
    Int { bits: u32 },
    F64,
    Ptr,
    Struct { fields: Seq<IrModel> },
    Array { elem: Box<IrModel>, len: usize },
}

impl IrType {
    /// The mathematical value of this type.
    pub open spec fn model(self) -> IrModel
        decreases self,
    {
        match self {
            IrType::Int { bits } => IrModel::Int { bits },
            IrType::F64 => IrModel::F64,
            IrType::Ptr => IrModel::Ptr,
            IrType::Struct { fields } => IrModel::Struct { fields: ir_models(fields@) },
            IrType::Array { elem, len } => IrModel::Array { elem: Box::new(elem.model()), len },
        }
    }
}

impl View for IrType {
    type V = IrModel;

    open spec fn view(&self) -> IrModel {
        self.model()
    }
}

/// The models of a sequence of machine types, element by element.
pub open spec fn ir_models(s: Seq<IrType>) -> Seq<IrModel>
    decreases s,
{
    if s.len() == 0 {
        Seq::empty()
    } else {
        ir_models(s.drop_last()).push(s.last().model())
    }
}

/// `ir_models` keeps the length and maps each element to its model.
pub proof fn lemma_ir_models(s: Seq<IrType>)
    ensures
        ir_models(s).len() == s.len(),
        forall|i: int| 0 <= i < s.len() ==> #[trigger] ir_models(s)[i] == s[i]@,
    decreases s.len(),
{
    if s.len() > 0 {
        lemma_ir_models(s.drop_last());
    }
}

/// Sequences of machine types with element-wise equal models have equal models.
pub proof fn lemma_ir_models_ext(a: Seq<IrType>, b: Seq<IrModel>)
    requires
        a.len() == b.len(),
        forall|i: int| 0 <= i < a.len() ==> a[i]@ == b[i],
    ensures
        ir_models(a) == b,
{
    lemma_ir_models(a);
    assert(ir_models(a) =~= b);
}

/// `i1`.
pub open spec fn bool_model() -> IrModel {
    IrModel::Int { bits: 1 }
}

/// `i8`.
pub open spec fn i8_model() -> IrModel {
    IrModel::Int { bits: 8 }
}

/// `i32`.
pub open spec fn i32_model() -> IrModel {
    IrModel::Int { bits: 32 }
}

/// `i64`.
pub open spec fn i64_model() -> IrModel {
    IrModel::Int { bits: 64 }
}

/// `{ ptr, i64 }`: the representation of a `Text` and of an array.
pub open spec fn ptr_len_model() -> IrModel {
    IrModel::Struct { fields: seq![IrModel::Ptr, i64_model()] }
}

/// `{ ptr, i64 }`.
pub fn ptr_len_type() -> (r: IrType)
    ensures
        r@ == ptr_len_model(),
{
    let fields = vec![IrType::Ptr, IrType::Int { bits: 64 }];
    proof {
        lemma_ir_models_ext(fields@, seq![IrModel::Ptr, i64_model()]);
    }
    IrType::Struct { fields }
}

/// A copy of a vector of machine types, element by element.
#[verifier::loop_isolation(false)]
pub fn copy_ir_types(ts: &Vec<IrType>) -> (r: Vec<IrType>)
    ensures
        r@.len() == ts@.len(),
        forall|i: int| 0 <= i < ts@.len() ==> r@[i]@ == ts@[i]@,
        ir_models(r@) == ir_models(ts@),
    decreases ts, 1int,
{
    let mut out: Vec<IrType> = Vec::new();
    let mut i: usize = 0;
    while i < ts.len()
        invariant
            i <= ts.len(),
            out@.len() == i,
            forall|j: int| 0 <= j < i ==> out@[j]@ == ts@[j]@,
        decreases ts.len() - i,
    {
        assert(decreases_to!(*ts => ts[i as int]));
        let t = ts[i].duplicate();
        out.push(t);
        i += 1;
    }
    proof {
        lemma_ir_models(ts@);
        lemma_ir_models_ext(out@, ir_models(ts@));
    }
    out
}

impl IrType {
    /// A copy of this type.
    pub fn duplicate(&self) -> (r: IrType)
        ensures
            r@ == self@,
        decreases self, 0int,
    {
        match self {
            IrType::Int { bits } => IrType::Int { bits: *bits },
            IrType::F64 => IrType::F64,
            IrType::Ptr => IrType::Ptr,
            IrType::Struct { fields } => IrType::Struct { fields: copy_ir_types(fields) },
            IrType::Array { elem, len } => IrType::Array {
                elem: Box::new(elem.duplicate()),
                len: *len,
            },
        }
    }

    /// Whether this is a float type.
    pub fn is_float(&self) -> (r: bool)
        ensures
            r == (self@ is F64),
    {
        match self {
            IrType::F64 => true,
            _ => false,
        }
    }
}

/// Whether two vectors of machine types are equal.
#[verifier::loop_isolation(false)]
fn ir_types_eq(a: &Vec<IrType>, b: &Vec<IrType>) -> (r: bool)
    ensures
        r == (ir_models(a@) == ir_models(b@)),
    decreases a, 1int,
{
    proof {
        lemma_ir_models(a@);
        lemma_ir_models(b@);
    }
    if a.len() != b.len() {
        return false;
    }
    let mut i: usize = 0;
    while i < a.len()
        invariant
            i <= a.len(),
            a.len() == b.len(),
            forall|j: int| 0 <= j < i ==> a@[j]@ == b@[j]@,
        decreases a.len() - i,
    {
        assert(decreases_to!(*a => a[i as int]));
        if !ir_type_eq(&a[i], &b[i]) {
            assert(ir_models(a@)[i as int] != ir_models(b@)[i as int]);
            return false;
        }
        i += 1;
    }
    assert(ir_models(a@) =~= ir_models(b@));
    true
}

/// Whether two machine types are the same type.
pub fn ir_type_eq(a: &IrType, b: &IrType) -> (r: bool)
    ensures
        r == (a@ == b@),
    decreases a, 0int,
{
    match (a, b) {
        (IrType::Int { bits: x }, IrType::Int { bits: y }) => *x == *y,
        (IrType::F64, IrType::F64) => true,
        (IrType::Ptr, IrType::Ptr) => true,
        (IrType::Struct { fields: x }, IrType::Struct { fields: y }) => ir_types_eq(x, y),
        (IrType::Array { elem: x, len: n }, IrType::Array { elem: y, len: m }) => {
            *n == *m && ir_type_eq(x, y)
        },
        _ => false,
    }
}

/// The textual (LLVM assembly) spelling of a machine type, e.g. `{ i8, double }`.
pub open spec fn ir_text(t: IrModel) -> Seq<char>
    decreases t,
{
    match t {
        IrModel::Int { bits } => "i"@ + decimal(bits as nat),
        IrModel::F64 => "double"@,
        IrModel::Ptr => "ptr"@,
        IrModel::Struct { fields } => if fields.len() == 0 {
            "{}"@
        } else {
            "{ "@ + ir_list_text(fields) + " }"@
        },
        IrModel::Array { elem, len } => "["@ + decimal(len as nat) + " x "@ + ir_text(*elem)
            + "]"@,
    }
}

/// Machine types spelled one after another, separated by `, `.
pub open spec fn ir_list_text(ts: Seq<IrModel>) -> Seq<char>
    decreases ts,
{
    if ts.len() == 0 {
        Seq::empty()
    } else if ts.len() == 1 {
        ir_text(ts[0])
    } else {
        ir_list_text(ts.drop_last()) + ", "@ + ir_text(ts.last())
    }
}

/// Spell a vector of machine types, separated by `, `.
#[verifier::loop_isolation(false)]
fn ir_list_to_text(ts: &Vec<IrType>) -> (r: String)
    ensures
        r@ == ir_list_text(ir_models(ts@)),
    decreases ts, 1int,
{
    proof {
        lemma_ir_models(ts@);
    }
    let mut s = String::new();
    let mut i: usize = 0;
    while i < ts.len()
        invariant
            i <= ts.len(),
            s@ == ir_list_text(ir_models(ts@).take(i as int)),
        decreases ts.len() - i,
    {
        let ghost ms = ir_models(ts@);
        assert(ms.take(i + 1).drop_last() =~= ms.take(i as int));
        assert(ms.take(i + 1).last() == ts@[i as int]@);
        assert(decreases_to!(*ts => ts[i as int]));
        let part = ir_to_text(&ts[i]);
        if i == 0 {
            assert(ms.take(1) =~= seq![ms[0]]);
            s = part;
        } else {
            s.append(", ");
            s.append(part.as_str());
        }
        i += 1;
    }
    assert(ir_models(ts@).take(ts@.len() as int) =~= ir_models(ts@));
    s
}

/// Spell a machine type in LLVM assembly syntax.
pub fn ir_to_text(t: &IrType) -> (r: String)
    ensures
        r@ == ir_text(t@),
    decreases t, 0int,
{
    match t {
        IrType::Int { bits } => {
            let mut s = String::from_str("i");
            let n = decimal_text(*bits as usize);
            s.append(n.as_str());
            s
        },
        IrType::F64 => String::from_str("double"),
        IrType::Ptr => String::from_str("ptr"),
        IrType::Struct { fields } => {
            proof {
                lemma_ir_models(fields@);
            }
            if fields.len() == 0 {
                String::from_str("{}")
            } else {
                let mut s = String::from_str("{ ");
                let inner = ir_list_to_text(fields);
                s.append(inner.as_str());
                s.append(" }");
                s
            }
        },
        IrType::Array { elem, len } => {
            let mut s = String::from_str("[");
            let n = decimal_text(*len);
            s.append(n.as_str());
            s.append(" x ");
            let e = ir_to_text(elem);
            s.append(e.as_str());
            s.append("]");
            s
        },
    }
}

/// A function signature: its parameter types and its return type (`None` for `void`).
#[derive(Debug)]
pub struct FnSig {
    pub ret: Option<IrType>,
    pub params: Vec<IrType>,
}

/// The mathematical value of a [`FnSig`].
pub struct FnSigModel {
    pub ret: Option<IrModel>,
    pub params: Seq<IrModel>,
}

impl View for FnSig {
    type V = FnSigModel;

    open spec fn view(&self) -> FnSigModel {
        FnSigModel {
            ret: match self.ret {
                Some(t) => Some(t@),
                None => None,
            },
            params: ir_models(self.params@),
        }
    }
}

} // verus!
