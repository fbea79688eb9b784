//! The syntax tree the front end hands to the later passes, and Quilon's types.
//!
//! Only the shape the analyses read is modelled: names, nesting, and the source
//! positions that diagnostics point at. Numeric literals keep their source text.

use vstd::prelude::*;
use vstd::string::*;

verus! {

broadcast use vstd::std_specs::vec::group_vec_axioms;

/// A source position: 1-based line and column.
#[derive(Clone, Copy, Debug, PartialEq, Eq, Structural)]
pub struct Span {
    pub line: usize,
    pub column: usize,
}

/// A Quilon type.
#[derive(Debug)]
pub enum Type {
    Num,
    Text,
    Bool,
    /// `$`, the unit type.
    Unit,
    /// `[]T`.
    Array(Box<Type>),
    /// A user record type.
    Named { name: String },
    /// A sum type (`Result` or a user declaration) with its variants.
    Sum { name: String, variants: Vec<SumVariant> },
    /// A not-yet-concrete sum payload.
    Generic { name: String },
    /// A function (closure) type.
    Function { params: Vec<Type>, ret: Box<Type> },
}

/// One variant of a sum type and its payload field types.
#[derive(Debug)]
pub struct SumVariant {
    pub name: String,
    pub fields: Vec<Type>,
}

/// The mathematical value of a [`Type`].
pub enum TypeModel {
    Num,
    Text,
    Bool,
    Unit,
    Array(Box<TypeModel>),
    Named { name: Seq<char> },
    Sum { name: Seq<char>, variants: Seq<VariantModel> },
    Generic { name: Seq<char> },
    Function { params: Seq<TypeModel>, ret: Box<TypeModel> },
}

/// The mathematical value of a [`SumVariant`].
pub struct VariantModel {
    pub name: Seq<char>,
    pub fields: Seq<TypeModel>,
}

impl Type {
    /// The mathematical value of this type.
    pub open spec fn model(self) -> TypeModel
        decreases self,
    {
        match self {
            Type::Num => TypeModel::Num,
            Type::Text => TypeModel::Text,
            Type::Bool => TypeModel::Bool,
            Type::Unit => TypeModel::Unit,
            Type::Array(elem) => TypeModel::Array(Box::new(elem.model())),
            Type::Named { name } => TypeModel::Named { name: name@ },
            Type::Sum { name, variants } => TypeModel::Sum {
                name: name@,
                variants: variant_models(variants@),
            },
            Type::Generic { name } => TypeModel::Generic { name: name@ },
            Type::Function { params, ret } => TypeModel::Function {
                params: type_models(params@),
                ret: Box::new(ret.model()),
            },
        }
    }
}

impl SumVariant {
    /// The mathematical value of this variant.
    pub open spec fn model(self) -> VariantModel
        decreases self,
    {
        VariantModel { name: self.name@, fields: type_models(self.fields@) }
    }
}

impl View for Type {
    type V = TypeModel;

    open spec fn view(&self) -> TypeModel {
        self.model()
    }
}

impl View for SumVariant {
    type V = VariantModel;

    open spec fn view(&self) -> VariantModel {
        self.model()
    }
}

/// The models of a sequence of types, element by element.
pub open spec fn type_models(s: Seq<Type>) -> Seq<TypeModel>
    decreases s,
{
    if s.len() == 0 {
        Seq::empty()
    } else {
        type_models(s.drop_last()).push(s.last().model())
    }
}

/// The models of a sequence of sum variants, element by element.
pub open spec fn variant_models(s: Seq<SumVariant>) -> Seq<VariantModel>
    decreases s,
{
    if s.len() == 0 {
        Seq::empty()
    } else {
        variant_models(s.drop_last()).push(s.last().model())
    }
}

/// `type_models` keeps the length and maps each element to its model.
pub proof fn lemma_type_models(s: Seq<Type>)
    ensures
        type_models(s).len() == s.len(),
        forall|i: int| 0 <= i < s.len() ==> #[trigger] type_models(s)[i] == s[i]@,
    decreases s.len(),
{
    if s.len() > 0 {
        lemma_type_models(s.drop_last());
    }
}

/// `variant_models` keeps the length and maps each element to its model.
pub proof fn lemma_variant_models(s: Seq<SumVariant>)
    ensures
        variant_models(s).len() == s.len(),
        forall|i: int| 0 <= i < s.len() ==> #[trigger] variant_models(s)[i] == s[i]@,
    decreases s.len(),
{
    if s.len() > 0 {
        lemma_variant_models(s.drop_last());
    }
}

/// Two sequences of types with the same length and element-wise equal models have equal
/// models.
pub proof fn lemma_type_models_ext(a: Seq<Type>, b: Seq<Type>)
    requires
        a.len() == b.len(),
        forall|i: int| 0 <= i < a.len() ==> a[i]@ == b[i]@,
    ensures
        type_models(a) == type_models(b),
{
    lemma_type_models(a);
    lemma_type_models(b);
    assert(type_models(a) =~= type_models(b));
}

/// Two sequences of variants with the same length and element-wise equal models have
/// equal models.
pub proof fn lemma_variant_models_ext(a: Seq<SumVariant>, b: Seq<SumVariant>)
    requires
        a.len() == b.len(),
        forall|i: int| 0 <= i < a.len() ==> a[i]@ == b[i]@,
    ensures
        variant_models(a) == variant_models(b),
{
    lemma_variant_models(a);
    lemma_variant_models(b);
    assert(variant_models(a) =~= variant_models(b));
}

/// A copy of a vector of types, element by element.
#[verifier::loop_isolation(false)]
fn copy_types(ts: &Vec<Type>) -> (r: Vec<Type>)
    ensures
        r@.len() == ts@.len(),
        forall|i: int| 0 <= i < ts@.len() ==> r@[i]@ == ts@[i]@,
    decreases ts, 1int,
{
    let mut out: Vec<Type> = Vec::new();
    let mut i: usize = 0;
    while i < ts.len()
        invariant
            i <= ts.len(),
            out@.len() == i,
            forall|j: int| 0 <= j < i ==> out@[j]@ == ts@[j]@,
        decreases ts.len() - i,
    {
        assert(decreases_to!(*ts => ts[i as int]));
        let t = ts[i].duplicate();
        out.push(t);
        i += 1;
    }
    out
}

/// A copy of a vector of sum variants, element by element.
#[verifier::loop_isolation(false)]
fn copy_variants(vs: &Vec<SumVariant>) -> (r: Vec<SumVariant>)
    ensures
        r@.len() == vs@.len(),
        forall|i: int| 0 <= i < vs@.len() ==> r@[i]@ == vs@[i]@,
    decreases vs, 1int,
{
    let mut out: Vec<SumVariant> = Vec::new();
    let mut i: usize = 0;
    while i < vs.len()
        invariant
            i <= vs.len(),
            out@.len() == i,
            forall|j: int| 0 <= j < i ==> out@[j]@ == vs@[j]@,
        decreases vs.len() - i,
    {
        assert(decreases_to!(*vs => vs[i as int]));
        let v = &vs[i];
        assert(decreases_to!(vs[i as int] => v.fields));
        let fields = copy_types(&v.fields);
        proof {
            lemma_type_models_ext(fields@, v.fields@);
        }
        out.push(SumVariant { name: v.name.clone(), fields });
        i += 1;
    }
    out
}

impl Type {
    /// A copy of this type with the same value.
    pub fn duplicate(&self) -> (r: Type)
        ensures
            r@ == self@,
        decreases self, 0int,
    {
        match self {
            Type::Num => Type::Num,
            Type::Text => Type::Text,
            Type::Bool => Type::Bool,
            Type::Unit => Type::Unit,
            Type::Array(elem) => Type::Array(Box::new(elem.duplicate())),
            Type::Named { name } => Type::Named { name: name.clone() },
            Type::Sum { name, variants } => {
                let copied = copy_variants(variants);
                proof {
                    lemma_variant_models_ext(copied@, variants@);
                }
                Type::Sum { name: name.clone(), variants: copied }
            },
            Type::Generic { name } => Type::Generic { name: name.clone() },
            Type::Function { params, ret } => {
                let copied = copy_types(params);
                proof {
                    lemma_type_models_ext(copied@, params@);
                }
                Type::Function { params: copied, ret: Box::new(ret.duplicate()) }
            },
        }
    }
}

/// A piece of a `"...{hole}..."` string interpolation.
#[derive(Debug)]
pub enum InterpPart {
    Lit(String),
    Hole(Expr),
}

/// One arm of a `?` match: the variant it matches and the arm's body.
#[derive(Debug)]
pub struct MatchArm {
    pub pattern: String,
    pub body: Expr,
}

/// A Quilon expression.
#[derive(Debug)]
pub enum Expr {
    Ident { name: String },
    /// A numeric literal, as written in the source.
    Number { literal: String },
    String { value: String },
    Bool { value: bool },
    Unit,
    Interpolation { parts: Vec<InterpPart> },
    Call { func: Box<Expr>, args: Vec<Expr> },
    BinOp { op: String, left: Box<Expr>, right: Box<Expr> },
    /// `left |> right`.
    Pipeline { left: Box<Expr>, right: Box<Expr> },
    Range { start: Box<Expr>, end: Box<Expr> },
    UnaryOp { op: String, expr: Box<Expr> },
    FieldAccess { expr: Box<Expr>, field: String },
    Spread { expr: Box<Expr> },
    Lambda { params: Vec<String>, body: Box<Expr> },
    /// `target := value` on a field.
    FieldAssign { target: Box<Expr>, value: Box<Expr> },
    Index { expr: Box<Expr>, index: Box<Expr> },
    If { cond: Box<Expr>, then: Box<Expr>, else_: Box<Expr> },
    Match { expr: Box<Expr>, arms: Vec<MatchArm> },
    Array { elements: Vec<Expr> },
    Record { fields: Vec<(String, Expr)> },
    Constructor { record: String, fields: Vec<(String, Expr)> },
    /// A `< ... >` block.
    Block { stmts: Vec<Statement> },
}

/// A statement inside a block.
#[derive(Debug)]
pub enum Statement {
    Expr(Expr),
    Item(Item),
}

/// A function parameter, with its declared type if any.
#[derive(Debug)]
pub struct Param {
    pub name: String,
    pub type_: Option<Type>,
}

/// `name = (params) => body`.
#[derive(Debug)]
pub struct FunctionDecl {
    pub name: String,
    pub params: Vec<Param>,
    pub body: Expr,
    pub span: Span,
}

/// `name = value` or `name := value`.
#[derive(Debug)]
pub struct VarDecl {
    pub name: String,
    pub mutable: bool,
    pub value: Expr,
    pub span: Span,
}

/// A type declaration.
#[derive(Debug)]
pub struct TypeDecl {
    pub name: String,
    pub span: Span,
}

/// A top-level (or block-level) declaration.
#[derive(Debug)]
pub enum Item {
    FunctionDecl(FunctionDecl),
    VarDecl(VarDecl),
    TypeDecl(TypeDecl),
}

/// A whole program: its items in source order.
#[derive(Debug)]
pub struct Program {
    pub items: Vec<Item>,
}

/// Whether `name` starts with the `@` marker of a leaf IO primitive.
pub open spec fn is_at_name(name: Seq<char>) -> bool {
    name.len() > 0 && name[0] == '@'
}

/// Tests the `@` marker on `name`.
pub fn starts_with_at(name: &String) -> (r: bool)
    ensures
        r == is_at_name(name@),
{
    let s = name.as_str();
    if s.unicode_len() == 0 {
        false
    } else {
        s.get_char(0) == '@'
    }
}

} // verus!
