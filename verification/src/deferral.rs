//! Deferral analysis: whether a program reaches any `@` leaf IO primitive.
//!
//! Codegen runs the entry on a scheduler fiber only when it does, so a pure program is
//! compiled exactly as before. An `@` name can only ever name a leaf IO primitive (the
//! parser reserves the `@`), so any `@`-prefixed identifier — called directly, piped
//! into, or otherwise — counts.

use vstd::prelude::*;
use crate::ast::{is_at_name, starts_with_at, Expr, InterpPart, Item, MatchArm, Program, Statement};

verus! {

broadcast use vstd::std_specs::vec::group_vec_axioms;

/// What the analysis hands to codegen.
#[derive(Debug, Clone, Copy, PartialEq, Eq, Structural)]
pub struct DeferInfo {
    /// Whether any `@` leaf IO primitive is reachable.
    pub uses_deferral: bool,
}

/// Whether an `@`-prefixed identifier appears anywhere in `e` (match patterns, lambda
/// parameters and field names are not expressions and do not count).
pub open spec fn mentions_at(e: Expr) -> bool
    decreases e,
{
    match e {
        Expr::Ident { name } => is_at_name(name@),
        Expr::Number { .. } => false,
        Expr::String { .. } => false,
        Expr::Bool { .. } => false,
        Expr::Unit => false,
        Expr::Interpolation { parts } => parts_mention_at(parts@),
        Expr::Call { func, args } => mentions_at(*func) || exprs_mention_at(args@),
        Expr::BinOp { left, right, .. } => mentions_at(*left) || mentions_at(*right),
        Expr::Pipeline { left, right } => mentions_at(*left) || mentions_at(*right),
        Expr::Range { start, end } => mentions_at(*start) || mentions_at(*end),
        Expr::UnaryOp { expr, .. } => mentions_at(*expr),
        Expr::FieldAccess { expr, .. } => mentions_at(*expr),
        Expr::Spread { expr } => mentions_at(*expr),
        Expr::Lambda { body, .. } => mentions_at(*body),
        Expr::FieldAssign { target, value } => mentions_at(*target) || mentions_at(*value),
        Expr::Index { expr, index } => mentions_at(*expr) || mentions_at(*index),
        Expr::If { cond, then, else_ } => mentions_at(*cond) || mentions_at(*then) || mentions_at(
            *else_,
        ),
        Expr::Match { expr, arms } => mentions_at(*expr) || arms_mention_at(arms@),
        Expr::Array { elements } => exprs_mention_at(elements@),
        Expr::Record { fields } => fields_mention_at(fields@),
        Expr::Constructor { fields, .. } => fields_mention_at(fields@),
        Expr::Block { stmts } => stmts_mention_at(stmts@),
    }
}

/// Whether any expression of `es` mentions an `@` identifier.
pub open spec fn exprs_mention_at(es: Seq<Expr>) -> bool
    decreases es,
{
    if es.len() == 0 {
        false
    } else {
        exprs_mention_at(es.drop_last()) || mentions_at(es.last())
    }
}

/// Whether any hole of an interpolation mentions an `@` identifier.
pub open spec fn parts_mention_at(ps: Seq<InterpPart>) -> bool
    decreases ps,
{
    if ps.len() == 0 {
        false
    } else {
        parts_mention_at(ps.drop_last()) || match ps.last() {
            InterpPart::Hole(e) => mentions_at(e),
            InterpPart::Lit(_) => false,
        }
    }
}

/// Whether any arm body mentions an `@` identifier.
pub open spec fn arms_mention_at(arms: Seq<MatchArm>) -> bool
    decreases arms,
{
    if arms.len() == 0 {
        false
    } else {
        arms_mention_at(arms.drop_last()) || mentions_at(arms.last().body)
    }
}

/// Whether any field value mentions an `@` identifier.
pub open spec fn fields_mention_at(fs: Seq<(String, Expr)>) -> bool
    decreases fs,
{
    if fs.len() == 0 {
        false
    } else {
        fields_mention_at(fs.drop_last()) || mentions_at(fs.last().1)
    }
}

/// Whether a declaration's body or value mentions an `@` identifier.
pub open spec fn item_mentions_at(item: Item) -> bool
    decreases item,
{
    match item {
        Item::FunctionDecl(f) => mentions_at(f.body),
        Item::VarDecl(v) => mentions_at(v.value),
        Item::TypeDecl(_) => false,
    }
}

/// Whether any statement of a block mentions an `@` identifier.
pub open spec fn stmts_mention_at(ss: Seq<Statement>) -> bool
    decreases ss,
{
    if ss.len() == 0 {
        false
    } else {
        stmts_mention_at(ss.drop_last()) || match ss.last() {
            Statement::Expr(e) => mentions_at(e),
            Statement::Item(item) => item_mentions_at(item),
        }
    }
}

/// Whether any item of a program mentions an `@` identifier.
pub open spec fn items_mention_at(items: Seq<Item>) -> bool
    decreases items.len(),
{
    if items.len() == 0 {
        false
    } else {
        items_mention_at(items.drop_last()) || item_mentions_at(items.last())
    }
}

/// A program reaches an `@` primitive exactly when one of its items (a function body or
/// a variable's value) mentions one: the analysis is whole-program, so a primitive
/// reached only through a helper still counts.
pub proof fn law_deferral_is_any_item(items: Seq<Item>)
    ensures
        items_mention_at(items) <==> exists|i: int|
            0 <= i < items.len() && #[trigger] item_mentions_at(items[i]),
    decreases items.len(),
{
    if items.len() > 0 {
        let t = items.drop_last();
        law_deferral_is_any_item(t);
        if exists|i: int| 0 <= i < t.len() && #[trigger] item_mentions_at(t[i]) {
            let i = choose|i: int| 0 <= i < t.len() && #[trigger] item_mentions_at(t[i]);
            assert(items[i] == t[i]);
        }
        if exists|i: int| 0 <= i < items.len() && #[trigger] item_mentions_at(items[i]) {
            let i = choose|i: int| 0 <= i < items.len() && #[trigger] item_mentions_at(items[i]);
            if i < items.len() - 1 {
                assert(items[i] == t[i]);
            }
        }
    }
}

/// Some expression of `es` mentions an `@` identifier exactly when the sequence does.
proof fn lemma_exprs_mention(es: Seq<Expr>)
    ensures
        exprs_mention_at(es) <==> exists|i: int| 0 <= i < es.len() && #[trigger] mentions_at(es[i]),
    decreases es.len(),
{
    if es.len() > 0 {
        lemma_exprs_mention(es.drop_last());
        assert forall|i: int| 0 <= i < es.len() - 1 implies es.drop_last()[i] == es[i] by {}
        if exists|i: int| 0 <= i < es.len() && #[trigger] mentions_at(es[i]) {
            let i = choose|i: int| 0 <= i < es.len() && #[trigger] mentions_at(es[i]);
            if i < es.len() - 1 {
                assert(mentions_at(es.drop_last()[i]));
            }
        }
        if exists|i: int| 0 <= i < es.drop_last().len() && #[trigger] mentions_at(es.drop_last()[i]) {
            let i = choose|i: int| 0 <= i < es.drop_last().len() && #[trigger] mentions_at(es.drop_last()[i]);
            assert(mentions_at(es[i]));
        }
        assert(mentions_at(es.last()) ==> mentions_at(es[es.len() - 1]));
    }
}

/// Whether an interpolation part is a hole mentioning an `@` identifier.
pub open spec fn hole_mentions_at(p: InterpPart) -> bool {
    match p {
        InterpPart::Hole(e) => mentions_at(e),
        InterpPart::Lit(_) => false,
    }
}

/// Some hole of `ps` mentions an `@` identifier exactly when the parts do.
proof fn lemma_parts_mention(ps: Seq<InterpPart>)
    ensures
        parts_mention_at(ps) <==> exists|i: int| 0 <= i < ps.len() && #[trigger] hole_mentions_at(ps[i]),
    decreases ps.len(),
{
    if ps.len() > 0 {
        lemma_parts_mention(ps.drop_last());
        if exists|i: int| 0 <= i < ps.len() && #[trigger] hole_mentions_at(ps[i]) {
            let i = choose|i: int| 0 <= i < ps.len() && #[trigger] hole_mentions_at(ps[i]);
            if i < ps.len() - 1 {
                assert(hole_mentions_at(ps.drop_last()[i]));
            }
        }
        if exists|i: int| 0 <= i < ps.drop_last().len() && #[trigger] hole_mentions_at(ps.drop_last()[i]) {
            let i = choose|i: int| 0 <= i < ps.drop_last().len() && #[trigger] hole_mentions_at(ps.drop_last()[i]);
            assert(hole_mentions_at(ps[i]));
        }
        assert(hole_mentions_at(ps[ps.len() - 1]) == hole_mentions_at(ps.last()));
    }
}

/// Some arm body of `arms` mentions an `@` identifier exactly when the arms do.
proof fn lemma_arms_mention(arms: Seq<MatchArm>)
    ensures
        arms_mention_at(arms) <==> exists|i: int| 0 <= i < arms.len() && #[trigger] mentions_at(arms[i].body),
    decreases arms.len(),
{
    if arms.len() > 0 {
        lemma_arms_mention(arms.drop_last());
        if exists|i: int| 0 <= i < arms.len() && #[trigger] mentions_at(arms[i].body) {
            let i = choose|i: int| 0 <= i < arms.len() && #[trigger] mentions_at(arms[i].body);
            if i < arms.len() - 1 {
                assert(mentions_at(arms.drop_last()[i].body));
            }
        }
        if exists|i: int| 0 <= i < arms.drop_last().len() && #[trigger] mentions_at(arms.drop_last()[i].body) {
            let i = choose|i: int| 0 <= i < arms.drop_last().len() && #[trigger] mentions_at(arms.drop_last()[i].body);
            assert(mentions_at(arms[i].body));
        }
        assert(mentions_at(arms[arms.len() - 1].body) == mentions_at(arms.last().body));
    }
}

/// Some field value of `fs` mentions an `@` identifier exactly when the fields do.
proof fn lemma_fields_mention(fs: Seq<(String, Expr)>)
    ensures
        fields_mention_at(fs) <==> exists|i: int| 0 <= i < fs.len() && #[trigger] mentions_at(fs[i].1),
    decreases fs.len(),
{
    if fs.len() > 0 {
        lemma_fields_mention(fs.drop_last());
        if exists|i: int| 0 <= i < fs.len() && #[trigger] mentions_at(fs[i].1) {
            let i = choose|i: int| 0 <= i < fs.len() && #[trigger] mentions_at(fs[i].1);
            if i < fs.len() - 1 {
                assert(mentions_at(fs.drop_last()[i].1));
            }
        }
        if exists|i: int| 0 <= i < fs.drop_last().len() && #[trigger] mentions_at(fs.drop_last()[i].1) {
            let i = choose|i: int| 0 <= i < fs.drop_last().len() && #[trigger] mentions_at(fs.drop_last()[i].1);
            assert(mentions_at(fs[i].1));
        }
        assert(mentions_at(fs[fs.len() - 1].1) == mentions_at(fs.last().1));
    }
}

/// Whether a block statement mentions an `@` identifier: an expression statement, or a
/// function's body or a variable's value declared in the block.
pub open spec fn statement_mentions_at(st: Statement) -> bool {
    match st {
        Statement::Expr(e) => mentions_at(e),
        Statement::Item(Item::FunctionDecl(f)) => mentions_at(f.body),
        Statement::Item(Item::VarDecl(v)) => mentions_at(v.value),
        Statement::Item(Item::TypeDecl(_)) => false,
    }
}

/// Some statement of `ss` mentions an `@` identifier exactly when the statements do.
proof fn lemma_stmts_mention(ss: Seq<Statement>)
    ensures
        stmts_mention_at(ss) <==> exists|i: int| 0 <= i < ss.len() && #[trigger] statement_mentions_at(ss[i]),
    decreases ss.len(),
{
    if ss.len() > 0 {
        lemma_stmts_mention(ss.drop_last());
        if exists|i: int| 0 <= i < ss.len() && #[trigger] statement_mentions_at(ss[i]) {
            let i = choose|i: int| 0 <= i < ss.len() && #[trigger] statement_mentions_at(ss[i]);
            if i < ss.len() - 1 {
                assert(statement_mentions_at(ss.drop_last()[i]));
            }
        }
        if exists|i: int| 0 <= i < ss.drop_last().len() && #[trigger] statement_mentions_at(ss.drop_last()[i]) {
            let i = choose|i: int| 0 <= i < ss.drop_last().len() && #[trigger] statement_mentions_at(ss.drop_last()[i]);
            assert(statement_mentions_at(ss[i]));
        }
        assert(statement_mentions_at(ss[ss.len() - 1]) == statement_mentions_at(ss.last()));
        match ss.last() {
            Statement::Item(item) => {
                assert(statement_mentions_at(ss.last()) == item_mentions_at(item));
            },
            Statement::Expr(_) => {},
        }
    }
}

/// An expression reaches an `@` primitive exactly when it is an identifier starting with
/// `@`, or one of its subexpressions does: the callee or any argument of a call, either
/// side of an operator or pipeline, any element, field value, hole, arm body, branch, or
/// block statement. Literals never do.
pub proof fn law_a_mention_anywhere_inside_counts(e: Expr)
    ensures
        match e {
            Expr::Ident { name } => mentions_at(e) <==> (name@.len() > 0 && name@[0] == '@'),
            Expr::Number { .. } | Expr::String { .. } | Expr::Bool { .. } | Expr::Unit => !mentions_at(e),
            Expr::Interpolation { parts } => mentions_at(e) <==> exists|i: int|
                0 <= i < parts@.len() && #[trigger] hole_mentions_at(parts@[i]),
            Expr::Call { func, args } => mentions_at(e) <==> (mentions_at(*func) || exists|i: int|
                0 <= i < args@.len() && #[trigger] mentions_at(args@[i])),
            Expr::BinOp { left, right, .. } => mentions_at(e) <==> (mentions_at(*left) || mentions_at(
                *right,
            )),
            Expr::Pipeline { left, right } => mentions_at(e) <==> (mentions_at(*left) || mentions_at(
                *right,
            )),
            Expr::Range { start, end } => mentions_at(e) <==> (mentions_at(*start) || mentions_at(
                *end,
            )),
            Expr::UnaryOp { expr, .. } => mentions_at(e) <==> mentions_at(*expr),
            Expr::FieldAccess { expr, .. } => mentions_at(e) <==> mentions_at(*expr),
            Expr::Spread { expr } => mentions_at(e) <==> mentions_at(*expr),
            Expr::Lambda { body, .. } => mentions_at(e) <==> mentions_at(*body),
            Expr::FieldAssign { target, value } => mentions_at(e) <==> (mentions_at(*target)
                || mentions_at(*value)),
            Expr::Index { expr, index } => mentions_at(e) <==> (mentions_at(*expr) || mentions_at(
                *index,
            )),
            Expr::If { cond, then, else_ } => mentions_at(e) <==> (mentions_at(*cond) || mentions_at(
                *then,
            ) || mentions_at(*else_)),
            Expr::Match { expr, arms } => mentions_at(e) <==> (mentions_at(*expr) || exists|i: int|
                0 <= i < arms@.len() && #[trigger] mentions_at(arms@[i].body)),
            Expr::Array { elements } => mentions_at(e) <==> exists|i: int|
                0 <= i < elements@.len() && #[trigger] mentions_at(elements@[i]),
            Expr::Record { fields } => mentions_at(e) <==> exists|i: int|
                0 <= i < fields@.len() && #[trigger] mentions_at(fields@[i].1),
            Expr::Constructor { fields, .. } => mentions_at(e) <==> exists|i: int|
                0 <= i < fields@.len() && #[trigger] mentions_at(fields@[i].1),
            Expr::Block { stmts } => mentions_at(e) <==> exists|i: int|
                0 <= i < stmts@.len() && #[trigger] statement_mentions_at(stmts@[i]),
        },
{
    match e {
        Expr::Interpolation { parts } => lemma_parts_mention(parts@),
        Expr::Call { args, .. } => lemma_exprs_mention(args@),
        Expr::Match { arms, .. } => lemma_arms_mention(arms@),
        Expr::Array { elements } => lemma_exprs_mention(elements@),
        Expr::Record { fields } => lemma_fields_mention(fields@),
        Expr::Constructor { fields, .. } => lemma_fields_mention(fields@),
        Expr::Block { stmts } => lemma_stmts_mention(stmts@),
        _ => {},
    }
}

/// In particular, an `@` primitive called inside a call's argument is reached: when
/// some argument mentions one, so does the call, whatever its callee.
pub proof fn law_a_mention_in_an_argument_counts(func: Box<Expr>, args: Vec<Expr>, i: int)
    requires
        0 <= i < args@.len(),
        mentions_at(args@[i]),
    ensures
        mentions_at(Expr::Call { func, args }),
{
    lemma_exprs_mention(args@);
}

/// Whether some element satisfies the predicate, read through the prefixes.
proof fn lemma_take_last<A>(s: Seq<A>, i: int)
    requires
        0 <= i < s.len(),
    ensures
        s.take(i + 1).drop_last() == s.take(i),
        s.take(i + 1).last() == s[i],
{
    assert(s.take(i + 1).drop_last() =~= s.take(i));
}

/// Analyze `program`: report whether it reaches any `@` leaf IO primitive.
#[verifier::loop_isolation(false)]
pub fn analyze(program: &Program) -> (r: DeferInfo)
    ensures
        r.uses_deferral == items_mention_at(program.items@),
{
    let items = &program.items;
    let mut i: usize = 0;
    while i < items.len()
        invariant
            i <= items@.len(),
            !items_mention_at(items@.take(i as int)),
        decreases items@.len() - i,
    {
        proof {
            lemma_take_last(items@, i as int);
        }
        if item_references_at_primitive(&items[i]) {
            proof {
                assert(items_mention_at(items@.take(i + 1)));
                lemma_prefix_mentions_items(items@, i + 1);
            }
            return DeferInfo { uses_deferral: true };
        }
        i += 1;
    }
    proof {
        assert(items@.take(items@.len() as int) =~= items@);
    }
    DeferInfo { uses_deferral: false }
}

/// A mention in a prefix is a mention in the whole sequence of items.
proof fn lemma_prefix_mentions_items(items: Seq<Item>, n: int)
    requires
        0 <= n <= items.len(),
        items_mention_at(items.take(n)),
    ensures
        items_mention_at(items),
    decreases items.len() - n,
{
    if n < items.len() {
        lemma_take_last(items, n);
        lemma_prefix_mentions_items(items, n + 1);
    } else {
        assert(items.take(n) =~= items);
    }
}

/// Whether a declaration's body or value references an `@` primitive.
fn item_references_at_primitive(item: &Item) -> (r: bool)
    ensures
        r == item_mentions_at(*item),
    decreases item, 2int,
{
    match item {
        Item::FunctionDecl(f) => references_at_primitive(&f.body),
        Item::VarDecl(v) => references_at_primitive(&v.value),
        Item::TypeDecl(_) => false,
    }
}

/// Whether any expression of `es` references an `@` primitive.
#[verifier::loop_isolation(false)]
fn any_references_at_primitive(es: &Vec<Expr>) -> (r: bool)
    ensures
        r == exprs_mention_at(es@),
    decreases es, 1int,
{
    let mut i: usize = 0;
    while i < es.len()
        invariant
            i <= es@.len(),
            !exprs_mention_at(es@.take(i as int)),
        decreases es@.len() - i,
    {
        proof {
            lemma_take_last(es@, i as int);
        }
        assert(decreases_to!(*es => es[i as int]));
        if references_at_primitive(&es[i]) {
            proof {
                lemma_prefix_mentions_exprs(es@, i + 1);
            }
            return true;
        }
        i += 1;
    }
    proof {
        assert(es@.take(es@.len() as int) =~= es@);
    }
    false
}

/// A mention in a prefix is a mention in the whole sequence of expressions.
proof fn lemma_prefix_mentions_exprs(es: Seq<Expr>, n: int)
    requires
        0 <= n <= es.len(),
        exprs_mention_at(es.take(n)),
    ensures
        exprs_mention_at(es),
    decreases es.len() - n,
{
    if n < es.len() {
        lemma_take_last(es, n);
        lemma_prefix_mentions_exprs(es, n + 1);
    } else {
        assert(es.take(n) =~= es);
    }
}

/// Whether any hole of an interpolation references an `@` primitive.
#[verifier::loop_isolation(false)]
fn parts_reference_at_primitive(ps: &Vec<InterpPart>) -> (r: bool)
    ensures
        r == parts_mention_at(ps@),
    decreases ps, 1int,
{
    let mut i: usize = 0;
    while i < ps.len()
        invariant
            i <= ps@.len(),
            !parts_mention_at(ps@.take(i as int)),
        decreases ps@.len() - i,
    {
        proof {
            lemma_take_last(ps@, i as int);
        }
        assert(decreases_to!(*ps => ps[i as int]));
        let hit = match &ps[i] {
            InterpPart::Hole(e) => references_at_primitive(e),
            InterpPart::Lit(_) => false,
        };
        if hit {
            proof {
                lemma_prefix_mentions_parts(ps@, i + 1);
            }
            return true;
        }
        i += 1;
    }
    proof {
        assert(ps@.take(ps@.len() as int) =~= ps@);
    }
    false
}

/// A mention in a prefix is a mention in the whole interpolation.
proof fn lemma_prefix_mentions_parts(ps: Seq<InterpPart>, n: int)
    requires
        0 <= n <= ps.len(),
        parts_mention_at(ps.take(n)),
    ensures
        parts_mention_at(ps),
    decreases ps.len() - n,
{
    if n < ps.len() {
        lemma_take_last(ps, n);
        lemma_prefix_mentions_parts(ps, n + 1);
    } else {
        assert(ps.take(n) =~= ps);
    }
}

/// Whether any arm body references an `@` primitive.
#[verifier::loop_isolation(false)]
fn arms_reference_at_primitive(arms: &Vec<MatchArm>) -> (r: bool)
    ensures
        r == arms_mention_at(arms@),
    decreases arms, 1int,
{
    let mut i: usize = 0;
    while i < arms.len()
        invariant
            i <= arms@.len(),
            !arms_mention_at(arms@.take(i as int)),
        decreases arms@.len() - i,
    {
        proof {
            lemma_take_last(arms@, i as int);
        }
        assert(decreases_to!(*arms => arms[i as int]));
        if references_at_primitive(&arms[i].body) {
            proof {
                lemma_prefix_mentions_arms(arms@, i + 1);
            }
            return true;
        }
        i += 1;
    }
    proof {
        assert(arms@.take(arms@.len() as int) =~= arms@);
    }
    false
}

/// A mention in a prefix is a mention in the whole list of arms.
proof fn lemma_prefix_mentions_arms(arms: Seq<MatchArm>, n: int)
    requires
        0 <= n <= arms.len(),
        arms_mention_at(arms.take(n)),
    ensures
        arms_mention_at(arms),
    decreases arms.len() - n,
{
    if n < arms.len() {
        lemma_take_last(arms, n);
        lemma_prefix_mentions_arms(arms, n + 1);
    } else {
        assert(arms.take(n) =~= arms);
    }
}

/// Whether any field value references an `@` primitive.
#[verifier::loop_isolation(false)]
fn fields_reference_at_primitive(fs: &Vec<(String, Expr)>) -> (r: bool)
    ensures
        r == fields_mention_at(fs@),
    decreases fs, 1int,
{
    let mut i: usize = 0;
    while i < fs.len()
        invariant
            i <= fs@.len(),
            !fields_mention_at(fs@.take(i as int)),
        decreases fs@.len() - i,
    {
        proof {
            lemma_take_last(fs@, i as int);
        }
        assert(decreases_to!(*fs => fs[i as int]));
        if references_at_primitive(&fs[i].1) {
            proof {
                lemma_prefix_mentions_fields(fs@, i + 1);
            }
            return true;
        }
        i += 1;
    }
    proof {
        assert(fs@.take(fs@.len() as int) =~= fs@);
    }
    false
}

/// A mention in a prefix is a mention in the whole list of fields.
proof fn lemma_prefix_mentions_fields(fs: Seq<(String, Expr)>, n: int)
    requires
        0 <= n <= fs.len(),
        fields_mention_at(fs.take(n)),
    ensures
        fields_mention_at(fs),
    decreases fs.len() - n,
{
    if n < fs.len() {
        lemma_take_last(fs, n);
        lemma_prefix_mentions_fields(fs, n + 1);
    } else {
        assert(fs.take(n) =~= fs);
    }
}

/// Whether any statement of a block references an `@` primitive.
#[verifier::loop_isolation(false)]
fn stmts_reference_at_primitive(ss: &Vec<Statement>) -> (r: bool)
    ensures
        r == stmts_mention_at(ss@),
    decreases ss, 1int,
{
    let mut i: usize = 0;
    while i < ss.len()
        invariant
            i <= ss@.len(),
            !stmts_mention_at(ss@.take(i as int)),
        decreases ss@.len() - i,
    {
        proof {
            lemma_take_last(ss@, i as int);
        }
        assert(decreases_to!(*ss => ss[i as int]));
        let hit = match &ss[i] {
            Statement::Expr(e) => references_at_primitive(e),
            Statement::Item(item) => item_references_at_primitive(item),
        };
        if hit {
            proof {
                lemma_prefix_mentions_stmts(ss@, i + 1);
            }
            return true;
        }
        i += 1;
    }
    proof {
        assert(ss@.take(ss@.len() as int) =~= ss@);
    }
    false
}

/// A mention in a prefix is a mention in the whole block.
proof fn lemma_prefix_mentions_stmts(ss: Seq<Statement>, n: int)
    requires
        0 <= n <= ss.len(),
        stmts_mention_at(ss.take(n)),
    ensures
        stmts_mention_at(ss),
    decreases ss.len() - n,
{
    if n < ss.len() {
        lemma_take_last(ss, n);
        lemma_prefix_mentions_stmts(ss, n + 1);
    } else {
        assert(ss.take(n) =~= ss);
    }
}

/// Whether any `@`-primitive reference appears anywhere in `expr`.
pub fn references_at_primitive(expr: &Expr) -> (r: bool)
    ensures
        r == mentions_at(*expr),
    decreases expr, 0int,
{
    match expr {
        Expr::Ident { name } => starts_with_at(name),
        Expr::Number { .. } | Expr::String { .. } | Expr::Bool { .. } | Expr::Unit => false,
        Expr::Interpolation { parts } => parts_reference_at_primitive(parts),
        Expr::Call { func, args } => {
            references_at_primitive(func) || any_references_at_primitive(args)
        },
        Expr::BinOp { left, right, .. } | Expr::Pipeline { left, right } => {
            references_at_primitive(left) || references_at_primitive(right)
        },
        Expr::Range { start, end } => {
            references_at_primitive(start) || references_at_primitive(end)
        },
        Expr::UnaryOp { expr, .. }
        | Expr::FieldAccess { expr, .. }
        | Expr::Spread { expr }
        | Expr::Lambda { body: expr, .. } => references_at_primitive(expr),
        Expr::FieldAssign { target, value } => {
            references_at_primitive(target) || references_at_primitive(value)
        },
        Expr::Index { expr, index } => {
            references_at_primitive(expr) || references_at_primitive(index)
        },
        Expr::If { cond, then, else_ } => {
            references_at_primitive(cond) || references_at_primitive(then)
                || references_at_primitive(else_)
        },
        Expr::Match { expr, arms } => {
            references_at_primitive(expr) || arms_reference_at_primitive(arms)
        },
        Expr::Array { elements } => any_references_at_primitive(elements),
        Expr::Record { fields } | Expr::Constructor { fields, .. } => {
            fields_reference_at_primitive(fields)
        },
        Expr::Block { stmts } => stmts_reference_at_primitive(stmts),
    }
}

} // verus!
