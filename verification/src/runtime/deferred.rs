//! Deferred values: the structured scopes that join every task a `< >` block launched,
//! the promise cell a value-returning `@` primitive fills in, and how a deferred `Text`
//! is told apart from a ready one.

use vstd::prelude::*;
use vstd::string::*;

verus! {

broadcast use vstd::std_specs::vec::group_vec_axioms;

/// The stack of open `< >` scopes, innermost last; each holds the tasks launched
/// directly inside it, to force-join when it closes. `T` is a task handle.
pub struct ScopeStack<T> {
    scopes: Vec<Vec<T>>,
}

impl<T> View for ScopeStack<T> {
    type V = Seq<Seq<T>>;

    closed spec fn view(&self) -> Seq<Seq<T>> {
        self.scopes@.map_values(|s: Vec<T>| s@)
    }
}

impl<T> ScopeStack<T> {
    /// No scope is open.
    pub fn new() -> (r: ScopeStack<T>)
        ensures
            r@ == Seq::<Seq<T>>::empty(),
    {
        let r = ScopeStack { scopes: Vec::new() };
        assert(r@ =~= Seq::<Seq<T>>::empty());
        r
    }

    /// Open a `< >` scope: begin collecting the tasks launched inside it.
    pub fn enter(&mut self)
        ensures
            final(self)@ == old(self)@.push(Seq::empty()),
    {
        self.scopes.push(Vec::new());
        assert(final(self)@ =~= old(self)@.push(Seq::empty()));
    }

    /// Record a freshly launched task in the innermost open scope. With no open scope
    /// (an `@` call outside any block) it is not recorded, and is joined only if forced.
    pub fn register(&mut self, task: T)
        ensures
            old(self)@.len() == 0 ==> final(self)@ == old(self)@,
            old(self)@.len() > 0 ==> final(self)@ == old(self)@.update(
                old(self)@.len() - 1,
                old(self)@.last().push(task),
            ),
    {
        if self.scopes.len() > 0 {
            let mut inner = self.scopes.pop().unwrap();
            inner.push(task);
            self.scopes.push(inner);
            assert(final(self)@ =~= old(self)@.update(
                old(self)@.len() - 1,
                old(self)@.last().push(task),
            ));
        }
    }

    /// Close the innermost scope and return the tasks it launched, in launch order, for
    /// the caller to force every one not already forced: a launched effect is always
    /// joined before its block returns. With no open scope there is nothing to join.
    pub fn join(&mut self) -> (tasks: Vec<T>)
        ensures
            old(self)@.len() == 0 ==> tasks@ == Seq::<T>::empty() && final(self)@ == old(self)@,
            old(self)@.len() > 0 ==> tasks@ == old(self)@.last() && final(self)@ == old(
                self,
            )@.drop_last(),
    {
        match self.scopes.pop() {
            Some(inner) => {
                assert(final(self)@ =~= old(self)@.drop_last());
                inner
            },
            None => Vec::new(),
        }
    }
}

/// The stack after registering each of `tasks` in turn.
pub open spec fn registered_all<T>(stack: Seq<Seq<T>>, tasks: Seq<T>) -> Seq<Seq<T>>
    decreases tasks.len(),
{
    if tasks.len() == 0 {
        stack
    } else {
        let s = registered_all(stack, tasks.drop_last());
        if s.len() == 0 {
            s
        } else {
            s.update(s.len() - 1, s.last().push(tasks.last()))
        }
    }
}

/// A scope joins exactly the tasks launched in it, in launch order, and closing it
/// gives back the enclosing scopes as they were.
pub proof fn law_scope_joins_its_launches<T>(stack: Seq<Seq<T>>, tasks: Seq<T>)
    ensures
        registered_all(stack.push(Seq::empty()), tasks).len() == stack.len() + 1,
        registered_all(stack.push(Seq::empty()), tasks).last() == tasks,
        registered_all(stack.push(Seq::empty()), tasks).drop_last() == stack,
    decreases tasks.len(),
{
    if tasks.len() > 0 {
        law_scope_joins_its_launches(stack, tasks.drop_last());
        let s = registered_all(stack.push(Seq::empty()), tasks.drop_last());
        assert(tasks.drop_last().push(tasks.last()) =~= tasks);
        assert(s.update(s.len() - 1, s.last().push(tasks.last())).drop_last() =~= s.drop_last());
    } else {
        assert(stack.push(Seq::<T>::empty()).drop_last() =~= stack);
    }
}

/// The second field of a deferred `Text`'s `{ ptr, i64 }` value: a real byte length is
/// never negative, so `-1` flags that the first field is a promise, not data.
pub const DEFERRED_SENTINEL: i64 = -1;

/// Whether a `Text` whose second field is `len` is deferred (a promise) rather than
/// ready bytes.
pub fn is_deferred_text(len: i64) -> (r: bool)
    ensures
        r == (len == DEFERRED_SENTINEL),
{
    len == DEFERRED_SENTINEL
}

/// A promise's state: pending until the producer stores its result.
#[derive(Debug, Clone, Copy, PartialEq, Eq, Structural)]
pub enum PromiseState {
    Pending,
    Ready,
}

/// A single deferred `Text`'s cell: written once by the producing fiber, read by the
/// forcing fibers. `data` is the address of the result's bytes; `site_data`/`site_len`
/// locate the text of the `@` call site that launched it (null/zero when unknown), which
/// a failing read reports.
#[derive(Debug, Clone, Copy, PartialEq, Eq, Structural)]
pub struct Promise {
    pub state: PromiseState,
    pub data: usize,
    pub len: i64,
    pub site_data: usize,
    pub site_len: i64,
}

/// What a force does next.
#[derive(Debug, Clone, Copy, PartialEq, Eq, Structural)]
pub enum ForceStep {
    /// The result is stored: hand back its bytes.
    Value { data: usize, len: i64 },
    /// Park until the producer wakes this promise, then look again.
    Park,
}

/// A fresh promise for the `@` call at `site_data`/`site_len`: pending, with no bytes.
pub open spec fn launched(site_data: usize, site_len: i64) -> Promise {
    Promise { state: PromiseState::Pending, data: 0, len: 0, site_data, site_len }
}

/// The promise `p` after its producer stored `data`/`len`.
pub open spec fn fulfilled(p: Promise, data: usize, len: i64) -> Promise {
    Promise { state: PromiseState::Ready, data, len, ..p }
}

/// What a look at the promise finds.
pub open spec fn force_outcome(p: Promise) -> ForceStep {
    match p.state {
        PromiseState::Ready => ForceStep::Value { data: p.data, len: p.len },
        PromiseState::Pending => ForceStep::Park,
    }
}

impl Promise {
    /// A fresh, pending promise for the `@` call at `site_data`/`site_len`: no bytes yet
    /// (a null data address and length 0).
    pub fn pending(site_data: usize, site_len: i64) -> (r: Promise)
        ensures
            r == launched(site_data, site_len),
    {
        Promise { state: PromiseState::Pending, data: 0, len: 0, site_data, site_len }
    }

    /// Store the produced `Text`'s bytes and mark the promise ready; the call site stays.
    pub fn fulfill(&mut self, data: usize, len: i64)
        ensures
            *final(self) == fulfilled(*old(self), data, len),
    {
        self.data = data;
        self.len = len;
        self.state = PromiseState::Ready;
    }

    /// One look at the promise while forcing it: the stored bytes once ready, otherwise
    /// park. A wake is an invitation to look, not a guarantee, so forcing loops.
    pub fn force_step(&self) -> (r: ForceStep)
        ensures
            r == force_outcome(*self),
    {
        match self.state {
            PromiseState::Ready => ForceStep::Value { data: self.data, len: self.len },
            PromiseState::Pending => ForceStep::Park,
        }
    }
}

/// Forcing is memoized: a launched promise parks its forcer; once fulfilled, every
/// force reads the stored bytes at once, without parking, and the call site is kept.
pub proof fn law_force_after_fulfill_is_memoized(
    site_data: usize,
    site_len: i64,
    data: usize,
    len: i64,
)
    ensures
        force_outcome(launched(site_data, site_len)) == ForceStep::Park,
        force_outcome(fulfilled(launched(site_data, site_len), data, len)) == (ForceStep::Value {
            data,
            len,
        }),
        fulfilled(launched(site_data, site_len), data, len).site_data == site_data,
        fulfilled(launched(site_data, site_len), data, len).site_len == site_len,
{
}

/// The message reported when the stdin read behind `@read` fails: the call site that
/// launched it (or `<unknown>`), then the error.
pub open spec fn read_failure_text(site: Option<Seq<char>>, error: Seq<char>) -> Seq<char> {
    "runtime error: @read at "@ + match site {
        Some(s) => s,
        None => "<unknown>"@,
    } + " failed: "@ + error + "\n"@
}

/// Build the fatal-read report for the `@read` launched at `site` (when known).
pub fn read_failure_message(site: Option<&str>, error: &str) -> (r: String)
    ensures
        r@ == read_failure_text(
            match site {
                Some(s) => Some(s@),
                None => None,
            },
            error@,
        ),
{
    let mut m = String::from_str("runtime error: @read at ");
    match site {
        Some(s) => m.append(s),
        None => m.append("<unknown>"),
    }
    m.append(" failed: ");
    m.append(error);
    m.append("\n");
    m
}

/// Whether an `@read` launch site is known: a present, non-empty site string.
pub fn site_known(is_null: bool, len: i64) -> (r: bool)
    ensures
        r == (!is_null && len > 0),
{
    !is_null && len > 0
}

/// The number of bytes a GC allocation of `size` bytes takes: a non-positive size
/// yields a 1-byte allocation, so the result is always a valid, unique pointer.
pub fn allocation_size(size: i64) -> (r: usize)
    requires
        size <= usize::MAX,
    ensures
        size <= 0 ==> r == 1,
        size > 0 ==> r == size,
{
    if size <= 0 {
        1
    } else {
        size as usize
    }
}

} // verus!
