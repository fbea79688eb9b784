//! The lexical environment: a stack of scopes mapping a name to what it was bound to.
//!
//! The innermost scope is the last one. A name resolves to its binding in the innermost
//! scope that binds it, so an inner binding shadows an outer one until its scope is
//! popped. The outermost (global) scope is never popped.

use vstd::prelude::*;
use crate::ast::{Span, Type, TypeModel};

verus! {

/// What a name is bound to: its type, whether it was bound with `:=`, and where.
#[derive(Debug)]
pub struct Symbol {
    pub type_: Type,
    pub mutable: bool,
    pub span: Span,
}

/// The mathematical value of a [`Symbol`].
pub struct SymbolModel {
    pub type_: TypeModel,
    pub mutable: bool,
    pub span: Span,
}

impl View for Symbol {
    type V = SymbolModel;

    open spec fn view(&self) -> SymbolModel {
        SymbolModel { type_: self.type_@, mutable: self.mutable, span: self.span }
    }
}

/// A type-checking failure raised by the environment.
#[derive(Debug)]
pub enum TypeError {
    /// `name` is already bound in the scope it was being defined in.
    DuplicateDefinition { name: String, span: Span },
}

/// One scope: the names bound in it, each at most once.
pub open spec fn scope_map(s: Seq<(String, Symbol)>) -> Map<Seq<char>, SymbolModel>
    decreases s.len(),
{
    if s.len() == 0 {
        Map::empty()
    } else {
        scope_map(s.drop_last()).insert(s.last().0@, s.last().1@)
    }
}

/// No name is bound twice in one scope.
pub open spec fn names_distinct(s: Seq<(String, Symbol)>) -> bool {
    forall|i: int, j: int| 0 <= i < j < s.len() ==> #[trigger] s[i].0@ != #[trigger] s[j].0@
}

/// The binding `name` resolves to in a stack of scopes: the innermost scope holding it.
pub open spec fn resolve(v: Seq<Map<Seq<char>, SymbolModel>>, name: Seq<char>) -> Option<
    SymbolModel,
>
    decreases v.len(),
{
    if v.len() == 0 {
        None
    } else if v.last().contains_key(name) {
        Some(v.last()[name])
    } else {
        resolve(v.drop_last(), name)
    }
}

/// The index of the innermost scope that binds `name`, or -1 when none does.
pub open spec fn innermost_holding(v: Seq<Map<Seq<char>, SymbolModel>>, name: Seq<char>) -> int
    decreases v.len(),
{
    if v.len() == 0 {
        -1
    } else if v.last().contains_key(name) {
        v.len() - 1
    } else {
        innermost_holding(v.drop_last(), name)
    }
}

/// The stack after `push_scope`.
pub open spec fn pushed(v: Seq<Map<Seq<char>, SymbolModel>>) -> Seq<Map<Seq<char>, SymbolModel>> {
    v.push(Map::empty())
}

/// The stack after `pop_scope`: the global scope stays.
pub open spec fn popped(v: Seq<Map<Seq<char>, SymbolModel>>) -> Seq<Map<Seq<char>, SymbolModel>> {
    if v.len() > 1 {
        v.drop_last()
    } else {
        v
    }
}

/// Whether `define` of `name` succeeds: the innermost scope does not bind it yet.
pub open spec fn can_define(v: Seq<Map<Seq<char>, SymbolModel>>, name: Seq<char>) -> bool {
    !v.last().contains_key(name)
}

/// The stack after a successful `define` of `name` as `sym`.
pub open spec fn defined(
    v: Seq<Map<Seq<char>, SymbolModel>>,
    name: Seq<char>,
    sym: SymbolModel,
) -> Seq<Map<Seq<char>, SymbolModel>> {
    v.update(v.len() - 1, v.last().insert(name, sym))
}

/// The stack after `update_type` of `name` to `t`: the innermost binding gets the new
/// type; with no binding, nothing changes.
pub open spec fn retyped(v: Seq<Map<Seq<char>, SymbolModel>>, name: Seq<char>, t: TypeModel) -> Seq<
    Map<Seq<char>, SymbolModel>,
> {
    let k = innermost_holding(v, name);
    if k < 0 {
        v
    } else {
        v.update(k, v[k].insert(name, SymbolModel { type_: t, ..v[k][name] }))
    }
}

/// Membership and values of `scope_map` read off the bindings.
pub proof fn lemma_scope_map(s: Seq<(String, Symbol)>)
    requires
        names_distinct(s),
    ensures
        forall|k: Seq<char>|
            #[trigger] scope_map(s).contains_key(k) <==> exists|j: int|
                0 <= j < s.len() && s[j].0@ == k,
        forall|j: int| 0 <= j < s.len() ==> #[trigger] scope_map(s)[s[j].0@] == s[j].1@,
    decreases s.len(),
{
    if s.len() > 0 {
        let t = s.drop_last();
        lemma_scope_map(t);
        assert forall|k: Seq<char>|
            #[trigger] scope_map(s).contains_key(k) <==> exists|j: int|
                0 <= j < s.len() && s[j].0@ == k by {
            assert(scope_map(s) == scope_map(t).insert(s.last().0@, s.last().1@));
            if scope_map(s).contains_key(k) && k != s.last().0@ {
                assert(scope_map(t).contains_key(k));
                let j = choose|j: int| 0 <= j < t.len() && t[j].0@ == k;
                assert(s[j] == t[j]);
            }
            if scope_map(s).contains_key(k) && k == s.last().0@ {
                assert(s[s.len() - 1].0@ == k);
            }
            if exists|j: int| 0 <= j < s.len() && s[j].0@ == k {
                let j = choose|j: int| 0 <= j < s.len() && s[j].0@ == k;
                if j < s.len() - 1 {
                    assert(t[j] == s[j]);
                    assert(scope_map(t).contains_key(k));
                }
            }
        }
        assert forall|j: int| 0 <= j < s.len() implies #[trigger] scope_map(s)[s[j].0@]
            == s[j].1@ by {
            assert(scope_map(s) == scope_map(t).insert(s.last().0@, s.last().1@));
            if j < s.len() - 1 {
                assert(t[j] == s[j]);
                assert(s[j].0@ != s[s.len() - 1].0@);
                assert(scope_map(t)[t[j].0@] == t[j].1@);
            }
        }
    }
}

/// Replacing the binding at `j` with one of the same name rebinds that name.
pub proof fn lemma_scope_map_update(s: Seq<(String, Symbol)>, j: int, p: (String, Symbol))
    requires
        names_distinct(s),
        0 <= j < s.len(),
        p.0@ == s[j].0@,
    ensures
        names_distinct(s.update(j, p)),
        scope_map(s.update(j, p)) == scope_map(s).insert(p.0@, p.1@),
{
    let u = s.update(j, p);
    assert(names_distinct(u)) by {
        assert forall|a: int, b: int| 0 <= a < b < u.len() implies #[trigger] u[a].0@
            != #[trigger] u[b].0@ by {
            assert(s[a].0@ != s[b].0@);
        }
    }
    lemma_scope_map(s);
    lemma_scope_map(u);
    assert forall|k: Seq<char>| #[trigger] scope_map(u).contains_key(k) == scope_map(s).insert(
        p.0@,
        p.1@,
    ).contains_key(k) by {
        if scope_map(s).contains_key(k) {
            let i = choose|i: int| 0 <= i < s.len() && s[i].0@ == k;
            assert(u[i].0@ == k);
        }
        if scope_map(u).contains_key(k) {
            let i = choose|i: int| 0 <= i < u.len() && u[i].0@ == k;
            assert(s[i].0@ == k);
        }
    }
    assert forall|k: Seq<char>| #[trigger] scope_map(u).contains_key(k) implies scope_map(u)[k]
        == scope_map(s).insert(p.0@, p.1@)[k] by {
        let i = choose|i: int| 0 <= i < u.len() && u[i].0@ == k;
        assert(scope_map(u)[u[i].0@] == u[i].1@);
        if i != j {
            assert(scope_map(s)[s[i].0@] == s[i].1@);
        }
    }
    assert(scope_map(u) =~= scope_map(s).insert(p.0@, p.1@));
}

/// What `resolve` and `innermost_holding` say about a stack.
pub proof fn lemma_resolve(v: Seq<Map<Seq<char>, SymbolModel>>, name: Seq<char>)
    ensures
        -1 <= innermost_holding(v, name) < v.len(),
        innermost_holding(v, name) >= 0 ==> {
            let k = innermost_holding(v, name);
            &&& v[k].contains_key(name)
            &&& resolve(v, name) == Some(v[k][name])
            &&& forall|i: int| k < i < v.len() ==> !(#[trigger] v[i]).contains_key(name)
        },
        innermost_holding(v, name) < 0 ==> {
            &&& resolve(v, name) is None
            &&& forall|i: int| 0 <= i < v.len() ==> !(#[trigger] v[i]).contains_key(name)
        },
    decreases v.len(),
{
    if v.len() > 0 {
        let t = v.drop_last();
        lemma_resolve(t, name);
        if !v.last().contains_key(name) {
            assert forall|i: int| 0 <= i < v.len() - 1 implies #[trigger] v[i] == t[i] by {}
        }
    }
}

/// The innermost scope holding `name` is the last one that holds it.
pub proof fn lemma_innermost_is(v: Seq<Map<Seq<char>, SymbolModel>>, name: Seq<char>, k: int)
    requires
        -1 <= k < v.len(),
        k >= 0 ==> v[k].contains_key(name),
        forall|i: int| k < i < v.len() ==> !(#[trigger] v[i]).contains_key(name),
    ensures
        innermost_holding(v, name) == k,
{
    lemma_resolve(v, name);
    let h = innermost_holding(v, name);
    if h > k {
        assert(!v[h].contains_key(name));
    }
    if h < k {
        assert(v[k].contains_key(name));
    }
}

/// Closing a scope right after opening one gives back the stack as it was.
pub proof fn law_pop_undoes_push(v: Seq<Map<Seq<char>, SymbolModel>>)
    requires
        v.len() >= 1,
    ensures
        popped(pushed(v)) == v,
{
    assert(pushed(v).drop_last() =~= v);
}

/// The global scope is never closed: popping a one-scope stack changes nothing.
pub proof fn law_global_scope_stays(v: Seq<Map<Seq<char>, SymbolModel>>)
    requires
        v.len() == 1,
    ensures
        popped(v) == v,
{
}

/// After a successful definition, the name resolves to the new binding.
pub proof fn law_lookup_after_define(
    v: Seq<Map<Seq<char>, SymbolModel>>,
    name: Seq<char>,
    sym: SymbolModel,
)
    requires
        v.len() >= 1,
        can_define(v, name),
    ensures
        resolve(defined(v, name, sym), name) == Some(sym),
{
    let d = defined(v, name, sym);
    assert(d.last() == v.last().insert(name, sym));
}

/// A definition leaves every other name resolving as before.
pub proof fn law_define_keeps_other_names(
    v: Seq<Map<Seq<char>, SymbolModel>>,
    name: Seq<char>,
    other: Seq<char>,
    sym: SymbolModel,
)
    requires
        v.len() >= 1,
        name != other,
    ensures
        resolve(defined(v, name, sym), other) == resolve(v, other),
{
    let d = defined(v, name, sym);
    assert(d.drop_last() =~= v.drop_last());
    assert(d.last().contains_key(other) == v.last().contains_key(other));
}

/// A name cannot be defined twice in the same scope.
pub proof fn law_no_redefinition_in_scope(
    v: Seq<Map<Seq<char>, SymbolModel>>,
    name: Seq<char>,
    sym: SymbolModel,
)
    requires
        v.len() >= 1,
    ensures
        !can_define(defined(v, name, sym), name),
{
    assert(defined(v, name, sym).last() == v.last().insert(name, sym));
}

/// A fresh inner scope accepts any name, shadowing an outer binding; closing that scope
/// makes the name resolve as it did before.
pub proof fn law_shadowing_ends_with_scope(
    v: Seq<Map<Seq<char>, SymbolModel>>,
    name: Seq<char>,
    sym: SymbolModel,
)
    requires
        v.len() >= 1,
    ensures
        can_define(pushed(v), name),
        resolve(defined(pushed(v), name, sym), name) == Some(sym),
        popped(defined(pushed(v), name, sym)) == v,
{
    let p = pushed(v);
    assert(p.last() == Map::<Seq<char>, SymbolModel>::empty());
    law_lookup_after_define(p, name, sym);
    assert(defined(p, name, sym).drop_last() =~= v);
}

/// After `update_type`, the name resolves to the same binding with the new type, and
/// every other name resolves as before.
pub proof fn law_retype_then_resolve(
    v: Seq<Map<Seq<char>, SymbolModel>>,
    name: Seq<char>,
    other: Seq<char>,
    t: TypeModel,
)
    requires
        name != other,
    ensures
        resolve(retyped(v, name, t), name) == match resolve(v, name) {
            Some(s) => Some(SymbolModel { type_: t, ..s }),
            None => None,
        },
        resolve(retyped(v, name, t), other) == resolve(v, other),
{
    let r = retyped(v, name, t);
    lemma_resolve(v, name);
    lemma_resolve(v, other);
    let k = innermost_holding(v, name);
    if k >= 0 {
        assert(r.len() == v.len());
        assert(forall|i: int| 0 <= i < v.len() && i != k ==> #[trigger] r[i] == v[i]);
        assert(r[k].contains_key(name));
        lemma_innermost_is(r, name, k);
        lemma_resolve(r, name);
        assert(forall|i: int| 0 <= i < v.len() ==> (#[trigger] r[i]).contains_key(other)
            == v[i].contains_key(other));
        let ko = innermost_holding(v, other);
        lemma_innermost_is(r, other, ko);
        lemma_resolve(r, other);
        if ko >= 0 && ko == k {
            assert(r[k][other] == v[k][other]);
        }
    }
}

/// The stack after `define` of `name` as `sym`: the binding is added when the innermost
/// scope does not bind the name yet, and nothing changes otherwise.
pub open spec fn define_step(
    v: Seq<Map<Seq<char>, SymbolModel>>,
    name: Seq<char>,
    sym: SymbolModel,
) -> Seq<Map<Seq<char>, SymbolModel>> {
    if can_define(v, name) {
        defined(v, name, sym)
    } else {
        v
    }
}

/// The stack after `define` of each of `defs` in turn.
pub open spec fn define_all(
    v: Seq<Map<Seq<char>, SymbolModel>>,
    defs: Seq<(Seq<char>, SymbolModel)>,
) -> Seq<Map<Seq<char>, SymbolModel>>
    decreases defs.len(),
{
    if defs.len() == 0 {
        v
    } else {
        let w = define_all(v, defs.drop_last());
        define_step(w, defs.last().0, defs.last().1)
    }
}

/// Definitions only touch the innermost scope.
proof fn lemma_define_all_inner(v: Seq<Map<Seq<char>, SymbolModel>>, defs: Seq<(Seq<char>, SymbolModel)>)
    requires
        v.len() >= 1,
    ensures
        define_all(v, defs).len() == v.len(),
        define_all(v, defs).drop_last() == v.drop_last(),
    decreases defs.len(),
{
    if defs.len() > 0 {
        lemma_define_all_inner(v, defs.drop_last());
        let w = define_all(v, defs.drop_last());
        if can_define(w, defs.last().0) {
            assert(defined(w, defs.last().0, defs.last().1).drop_last() =~= w.drop_last());
        }
    }
}

/// Opening a scope, making any definitions in it, and closing it gives back the stack
/// as it was: every binding made in the inner scope is gone, and a name it shadowed
/// resolves to its outer binding again.
pub proof fn law_scope_round_trip(
    v: Seq<Map<Seq<char>, SymbolModel>>,
    defs: Seq<(Seq<char>, SymbolModel)>,
)
    requires
        v.len() >= 1,
    ensures
        popped(define_all(pushed(v), defs)) == v,
{
    lemma_define_all_inner(pushed(v), defs);
    assert(pushed(v).drop_last() =~= v);
}

/// A stack of scopes: the global scope first, the innermost last.
#[derive(Debug)]
pub struct Environment {
    scopes: Vec<Vec<(String, Symbol)>>,
}

impl View for Environment {
    type V = Seq<Map<Seq<char>, SymbolModel>>;

    closed spec fn view(&self) -> Seq<Map<Seq<char>, SymbolModel>> {
        Seq::new(self.scopes@.len(), |k: int| scope_map(self.scopes@[k]@))
    }
}

impl Environment {
    /// The stack is never empty and no scope binds a name twice.
    pub closed spec fn wf(&self) -> bool {
        &&& self.scopes@.len() >= 1
        &&& forall|k: int| 0 <= k < self.scopes@.len() ==> names_distinct(#[trigger] self.scopes@[k]@)
    }

    /// A well-formed environment has its global scope open.
    pub proof fn lemma_wf_has_global_scope(&self)
        requires
            self.wf(),
        ensures
            self@.len() >= 1,
    {
    }

    /// A fresh environment: the global scope, empty.
    pub fn new() -> (r: Environment)
        ensures
            r.wf(),
            r@ == seq![Map::<Seq<char>, SymbolModel>::empty()],
    {
        let r = Environment { scopes: vec![Vec::new()] };
        assert(r@ =~= seq![Map::<Seq<char>, SymbolModel>::empty()]);
        r
    }

    /// The number of open scopes, the global one included.
    pub fn depth(&self) -> (n: usize)
        ensures
            n == self@.len(),
            self.wf() ==> n >= 1,
    {
        self.scopes.len()
    }

    /// Open a new innermost scope.
    pub fn push_scope(&mut self)
        requires
            old(self).wf(),
        ensures
            final(self).wf(),
            final(self)@ == pushed(old(self)@),
    {
        self.scopes.push(Vec::new());
        assert(self@ =~= pushed(old(self)@));
    }

    /// Close the innermost scope; the global scope is never closed.
    pub fn pop_scope(&mut self)
        requires
            old(self).wf(),
        ensures
            final(self).wf(),
            final(self)@ == popped(old(self)@),
    {
        if self.scopes.len() > 1 {
            self.scopes.pop();
            assert(self@ =~= popped(old(self)@));
        }
    }

    /// The index of the binding of `name` in scope `k`, if it binds it.
    fn find_in_scope(&self, k: usize, name: &String) -> (r: Option<usize>)
        requires
            self.wf(),
            k < self.scopes@.len(),
        ensures
            match r {
                Some(j) => j < self.scopes@[k as int]@.len() && self.scopes@[k as int]@[j as int].0@
                    == name@,
                None => !self@[k as int].contains_key(name@),
            },
    {
        let scope = &self.scopes[k];
        let mut j: usize = 0;
        while j < scope.len()
            invariant
                scope@ == self.scopes@[k as int]@,
                j <= scope@.len(),
                forall|i: int| 0 <= i < j ==> scope@[i].0@ != name@,
            decreases scope@.len() - j,
        {
            if scope[j].0 == *name {
                return Some(j);
            }
            j += 1;
        }
        proof {
            lemma_scope_map(scope@);
        }
        None
    }

    /// The scope and position of the innermost binding of `name`, if any.
    fn find(&self, name: &String) -> (r: Option<(usize, usize)>)
        requires
            self.wf(),
        ensures
            match r {
                Some((k, j)) => {
                    &&& k < self.scopes@.len()
                    &&& j < self.scopes@[k as int]@.len()
                    &&& self.scopes@[k as int]@[j as int].0@ == name@
                    &&& innermost_holding(self@, name@) == k
                },
                None => innermost_holding(self@, name@) == -1,
            },
    {
        let mut k: usize = self.scopes.len();
        while k > 0
            invariant
                self.wf(),
                k <= self.scopes@.len(),
                forall|i: int| k <= i < self@.len() ==> !(#[trigger] self@[i]).contains_key(name@),
            decreases k,
        {
            k -= 1;
            match self.find_in_scope(k, name) {
                Some(j) => {
                    proof {
                        lemma_scope_map(self.scopes@[k as int]@);
                        lemma_innermost_is(self@, name@, k as int);
                    }
                    return Some((k, j));
                },
                None => {},
            }
        }
        proof {
            lemma_innermost_is(self@, name@, -1);
        }
        None
    }

    /// Bind `name` in the innermost scope. Fails, changing nothing, when that scope
    /// already binds it; an outer binding of the same name is shadowed instead.
    pub fn define(&mut self, name: String, type_: Type, mutable: bool, span: Span) -> (r: Result<
        (),
        TypeError,
    >)
        requires
            old(self).wf(),
        ensures
            final(self).wf(),
            can_define(old(self)@, name@) ==> r is Ok && final(self)@ == defined(
                old(self)@,
                name@,
                SymbolModel { type_: type_@, mutable, span },
            ),
            !can_define(old(self)@, name@) ==> final(self)@ == old(self)@ && r == Err::<
                (),
                TypeError,
            >(TypeError::DuplicateDefinition { name, span }),
            final(self)@ == define_step(
                old(self)@,
                name@,
                SymbolModel { type_: type_@, mutable, span },
            ),
    {
        let last = self.scopes.len() - 1;
        if let Some(_) = self.find_in_scope(last, &name) {
            proof {
                lemma_scope_map(self.scopes@[last as int]@);
            }
            return Err(TypeError::DuplicateDefinition { name, span });
        }
        let ghost old_v = self@;
        let ghost old_scopes = self.scopes@;
        let mut current = self.scopes.pop().unwrap();
        let ghost name_v = name@;
        let ghost sym = Symbol { type_, mutable, span };
        current.push((name, Symbol { type_, mutable, span }));
        self.scopes.push(current);
        proof {
            let s = old_scopes[last as int]@;
            let ns = self.scopes@[last as int]@;
            lemma_scope_map(s);
            assert(ns.drop_last() =~= s);
            assert(names_distinct(ns)) by {
                assert forall|a: int, b: int| 0 <= a < b < ns.len() implies #[trigger] ns[a].0@
                    != #[trigger] ns[b].0@ by {
                    if b == ns.len() - 1 {
                        assert(ns[a] == s[a]);
                    } else {
                        assert(ns[a] == s[a] && ns[b] == s[b]);
                    }
                }
            }
            assert(forall|k: int| 0 <= k < last ==> #[trigger] self.scopes@[k] == old_scopes[k]);
            assert(self@ =~= defined(old_v, name_v, SymbolModel { type_: type_@, mutable, span }));
        }
        Ok(())
    }

    /// The binding `name` resolves to: the one in the innermost scope that binds it.
    pub fn lookup(&self, name: &str) -> (r: Option<&Symbol>)
        requires
            self.wf(),
        ensures
            match r {
                Some(s) => resolve(self@, name@) == Some(s@),
                None => resolve(self@, name@) is None,
            },
    {
        let key = name.to_owned();
        proof {
            lemma_resolve(self@, name@);
        }
        match self.find(&key) {
            Some((k, j)) => {
                proof {
                    lemma_scope_map(self.scopes@[k as int]@);
                    assert(self@[k as int] == scope_map(self.scopes@[k as int]@));
                }
                Some(&self.scopes[k][j].1)
            },
            None => None,
        }
    }

    /// The type `name` is bound to, if it is bound.
    pub fn get_type(&self, name: &str) -> (r: Option<Type>)
        requires
            self.wf(),
        ensures
            match r {
                Some(t) => resolve(self@, name@) matches Some(s) && s.type_ == t@,
                None => resolve(self@, name@) is None,
            },
    {
        match self.lookup(name) {
            Some(s) => Some(s.type_.duplicate()),
            None => None,
        }
    }

    /// Whether `name` is bound with `:=`; an unbound name is not mutable.
    pub fn is_mutable(&self, name: &str) -> (r: bool)
        requires
            self.wf(),
        ensures
            r == (resolve(self@, name@) matches Some(s) && s.mutable),
    {
        match self.lookup(name) {
            Some(s) => s.mutable,
            None => false,
        }
    }

    /// Give the innermost binding of `name` a new type (used for function type
    /// inference). Returns whether a binding was found; with none, nothing changes.
    pub fn update_type(&mut self, name: &str, new_type: Type) -> (r: bool)
        requires
            old(self).wf(),
        ensures
            final(self).wf(),
            r == resolve(old(self)@, name@) is Some,
            final(self)@ == retyped(old(self)@, name@, new_type@),
    {
        let key = name.to_owned();
        proof {
            lemma_resolve(self@, name@);
        }
        match self.find(&key) {
            Some((k, j)) => {
                let ghost old_v = self@;
                let ghost old_scopes = self.scopes@;
                let ghost s = self.scopes@[k as int]@;
                let ghost new_type_v = new_type@;
                let scope = &mut self.scopes[k];
                let old_entry = scope.remove(j);
                let entry = (
                    old_entry.0,
                    Symbol { type_: new_type, mutable: old_entry.1.mutable, span: old_entry.1.span },
                );
                let ghost p = entry;
                scope.insert(j, entry);
                proof {
                    let ns = self.scopes@[k as int]@;
                    assert(ns =~= s.update(j as int, p));
                    lemma_scope_map(s);
                    lemma_scope_map_update(s, j as int, p);
                    assert(old_v[k as int] == scope_map(s));
                    assert(forall|i: int|
                        0 <= i < self.scopes@.len() && i != k ==> #[trigger] self.scopes@[i]
                            == old_scopes[i]);
                    assert(self@ =~= retyped(old_v, name@, new_type_v));
                }
                true
            },
            None => false,
        }
    }
}

impl Default for Environment {
    /// A fresh environment, as [`Environment::new`].
    fn default() -> (r: Environment)
        ensures
            r.wf(),
            r@ == seq![Map::<Seq<char>, SymbolModel>::empty()],
    {
        Environment::new()
    }
}

} // verus!
