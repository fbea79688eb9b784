//! The shared compiler front end's own decisions: rejecting user-declared `@`
//! primitives, rendering its diagnostics, finding the entry point, and assembling what
//! the later stages receive.

use vstd::prelude::*;
use vstd::string::*;
use crate::ast::{is_at_name, starts_with_at, Item, Program, Span, Type};
use crate::deferral::{analyze, items_mention_at, DeferInfo};
use crate::text::{decimal, decimal_text, line_text, source_line, spaces, spaces_text};

verus! {

/// How serious a diagnostic is.
#[derive(Debug, Clone, Copy, PartialEq, Eq, Structural)]
pub enum Severity {
    Error,
    Warning,
}

/// The label a diagnostic of this severity carries.
pub open spec fn severity_label(s: Severity) -> Seq<char> {
    match s {
        Severity::Error => "error"@,
        Severity::Warning => "warning"@,
    }
}

/// The caret's indentation for a 1-based column.
pub open spec fn caret_indent(column: usize) -> nat {
    if column >= 1 {
        (column - 1) as nat
    } else {
        0
    }
}

/// A rustc-style report: `path:line:col: label: message`, then — when the source has
/// that line — the offending line and a caret under the column.
pub open spec fn diagnostic(
    path: Seq<char>,
    source: Seq<char>,
    span: Span,
    severity: Severity,
    message: Seq<char>,
) -> Seq<char> {
    let header = path + ":"@ + decimal(span.line as nat) + ":"@ + decimal(span.column as nat)
        + ": "@ + severity_label(severity) + ": "@ + message;
    match source_line(source, span.line as int) {
        Some(line) => header + "\n  | "@ + line + "\n  | "@ + spaces(caret_indent(span.column))
            + "^"@,
        None => header,
    }
}

/// Render a source-located diagnostic.
pub fn render(path: &str, source: &str, span: &Span, severity: Severity, message: &str) -> (r:
    String)
    ensures
        r@ == diagnostic(path@, source@, *span, severity, message@),
{
    let mut s = String::from_str(path);
    s.append(":");
    let line = decimal_text(span.line);
    s.append(line.as_str());
    s.append(":");
    let column = decimal_text(span.column);
    s.append(column.as_str());
    s.append(": ");
    match severity {
        Severity::Error => s.append("error"),
        Severity::Warning => s.append("warning"),
    }
    s.append(": ");
    s.append(message);
    match line_text(source, span.line) {
        Some(text) => {
            s.append("\n  | ");
            s.append(text.as_str());
            s.append("\n  | ");
            let indent = if span.column >= 1 {
                span.column - 1
            } else {
                0
            };
            let pad = spaces_text(indent);
            s.append(pad.as_str());
            s.append("^");
        },
        None => {},
    }
    s
}

/// A failure from any stage of the front end, rendered as the exact diagnostic the CLI
/// prints to stderr.
#[derive(Debug)]
pub struct FrontEndError {
    rendered: String,
}

impl View for FrontEndError {
    type V = Seq<char>;

    closed spec fn view(&self) -> Seq<char> {
        self.rendered@
    }
}

impl FrontEndError {
    /// A source-located error, rendered rustc-style with the caret context.
    pub fn at(path: &str, source: &str, span: &Span, message: &str) -> (r: FrontEndError)
        ensures
            r@ == diagnostic(path@, source@, *span, Severity::Error, message@),
    {
        FrontEndError { rendered: render(path, source, span, Severity::Error, message) }
    }

    /// An error with no source location (file read failure, import resolution).
    pub fn plain(message: String) -> (r: FrontEndError)
        ensures
            r@ == message@,
    {
        FrontEndError { rendered: message }
    }

    /// The rendered diagnostic.
    pub fn rendered(&self) -> (r: &str)
        ensures
            r@ == self@,
    {
        self.rendered.as_str()
    }
}

/// The message for a source file that could not be read.
pub open spec fn read_failure_message(path: Seq<char>, detail: Seq<char>) -> Seq<char> {
    "error reading "@ + path + ": "@ + detail
}

/// The location-less error for a source file that could not be read; `detail` is the
/// operating system's description of the failure.
pub fn read_failure(path: &str, detail: &str) -> (r: FrontEndError)
    ensures
        r@ == read_failure_message(path@, detail@),
{
    let mut s = String::from_str("error reading ");
    s.append(path);
    s.append(": ");
    s.append(detail);
    FrontEndError::plain(s)
}

/// The span and name an item declares, when that name carries the `@` marker.
pub open spec fn at_declaration(item: Item) -> Option<(Span, Seq<char>)> {
    match item {
        Item::FunctionDecl(d) => if is_at_name(d.name@) {
            Some((d.span, d.name@))
        } else {
            None
        },
        Item::VarDecl(d) => if is_at_name(d.name@) {
            Some((d.span, d.name@))
        } else {
            None
        },
        Item::TypeDecl(_) => None,
    }
}

/// The first item, in source order, that declares an `@` name.
pub open spec fn first_at(items: Seq<Item>) -> Option<(Span, Seq<char>)>
    decreases items.len(),
{
    if items.len() == 0 {
        None
    } else {
        match at_declaration(items[0]) {
            Some(found) => Some(found),
            None => first_at(items.drop_first()),
        }
    }
}

/// `first_at` is the first item with an `@` declaration: none before it has one.
proof fn lemma_first_at(items: Seq<Item>, i: int)
    requires
        0 <= i <= items.len(),
        forall|j: int| 0 <= j < i ==> at_declaration(#[trigger] items[j]) is None,
    ensures
        first_at(items) == first_at(items.subrange(i, items.len() as int)),
    decreases i,
{
    if i > 0 {
        let rest = items.drop_first();
        assert forall|j: int| 0 <= j < i - 1 implies at_declaration(#[trigger] rest[j]) is None by {
            assert(rest[j] == items[j + 1]);
        }
        lemma_first_at(rest, i - 1);
        assert(rest.subrange(i - 1, rest.len() as int) =~= items.subrange(i, items.len() as int));
    } else {
        assert(items.subrange(0, items.len() as int) =~= items);
    }
}

/// The span and name of the first top-level declaration whose name starts with `@`, if
/// any. User code may call an `@` primitive but never declare one.
#[verifier::loop_isolation(false)]
pub fn first_at_declaration(program: &Program) -> (r: Option<(&Span, &str)>)
    ensures
        match r {
            Some((span, name)) => first_at(program.items@) == Some((*span, name@)),
            None => first_at(program.items@) is None,
        },
{
    let items = &program.items;
    let mut i: usize = 0;
    while i < items.len()
        invariant
            i <= items@.len(),
            forall|j: int| 0 <= j < i ==> at_declaration(#[trigger] items@[j]) is None,
        decreases items@.len() - i,
    {
        proof {
            lemma_first_at(items@, i as int);
            let rest = items@.subrange(i as int, items@.len() as int);
            assert(rest[0] == items@[i as int]);
        }
        match &items[i] {
            Item::FunctionDecl(d) => {
                if starts_with_at(&d.name) {
                    return Some((&d.span, d.name.as_str()));
                }
            },
            Item::VarDecl(d) => {
                if starts_with_at(&d.name) {
                    return Some((&d.span, d.name.as_str()));
                }
            },
            Item::TypeDecl(_) => {},
        }
        i += 1;
    }
    proof {
        lemma_first_at(items@, i as int);
    }
    None
}

/// The message rejecting a user-written `@` declaration of `name`.
pub open spec fn at_declaration_message(name: Seq<char>) -> Seq<char> {
    "`"@ + name
        + "` cannot be declared here: `@` marks a built-in IO primitive (like `@sleep` from core.time), which only the corelib defines — user code calls one, it does not declare one"@
}

/// Reject an `@`-prefixed declaration in the program's own source with a
/// source-located diagnostic: the `@` marker names a leaf IO primitive, which only the
/// corelib defines.
pub fn reject_at_declarations(path: &str, source: &str, program: &Program) -> (r: Result<
    (),
    FrontEndError,
>)
    ensures
        match first_at(program.items@) {
            None => r is Ok,
            Some((span, name)) => r matches Err(e) && e@ == diagnostic(
                path@,
                source@,
                span,
                Severity::Error,
                at_declaration_message(name),
            ),
        },
{
    match first_at_declaration(program) {
        Some((span, name)) => {
            let mut message = String::from_str("`");
            message.append(name);
            message.append(
                "` cannot be declared here: `@` marks a built-in IO primitive (like `@sleep` from core.time), which only the corelib defines — user code calls one, it does not declare one",
            );
            Err(FrontEndError::at(path, source, span, message.as_str()))
        },
        None => Ok(()),
    }
}

/// Whether `program` defines the `^` entry point required to build an executable.
pub open spec fn defines_entry(items: Seq<Item>) -> bool {
    exists|i: int|
        0 <= i < items.len() && (#[trigger] items[i] matches Item::FunctionDecl(f) && f.name@
            == seq!['^'])
}

/// The entry point may stand anywhere: a program defines it exactly when some item, at
/// any position and whatever precedes it, is a function named `^`; declaring more items
/// before or after an entry point keeps it.
pub proof fn law_entry_point_at_any_position(items: Seq<Item>, before: Seq<Item>, after: Seq<Item>)
    ensures
        defines_entry(items) <==> exists|i: int|
            0 <= i < items.len() && (#[trigger] items[i] matches Item::FunctionDecl(f) && f.name@
                =~= seq!['^']),
        defines_entry(items) ==> defines_entry(before + items + after),
{
    if defines_entry(items) {
        let i = choose|i: int|
            0 <= i < items.len() && (#[trigger] items[i] matches Item::FunctionDecl(f) && f.name@
                == seq!['^']);
        let all = before + items + after;
        assert(all[before.len() + i] == items[i]);
    }
}

/// Whether `program` defines the `^` entry point required to build an executable.
#[verifier::loop_isolation(false)]
pub fn has_entry_point(program: &Program) -> (r: bool)
    ensures
        r == defines_entry(program.items@),
{
    let items = &program.items;
    let mut i: usize = 0;
    while i < items.len()
        invariant
            i <= items@.len(),
            forall|j: int|
                0 <= j < i ==> !(#[trigger] items@[j] matches Item::FunctionDecl(f) && f.name@
                    == seq!['^']),
        decreases items@.len() - i,
    {
        match &items[i] {
            Item::FunctionDecl(f) => {
                let s = f.name.as_str();
                if s.unicode_len() == 1 && s.get_char(0) == '^' {
                    assert(f.name@ =~= seq!['^']);
                    return true;
                }
            },
            _ => {},
        }
        i += 1;
    }
    false
}

/// Every expression's inferred type, keyed by source position.
#[derive(Debug)]
pub struct TypeTable {
    pub entries: Vec<(Span, Type)>,
}

/// A program that has passed the front end, together with what the later stages need
/// from that pass.
#[derive(Debug)]
pub struct Checked {
    /// The import-linked, type-checked program.
    pub program: Program,
    /// Every expression's inferred type.
    pub types: TypeTable,
    /// The source text of the checked file.
    pub source: String,
    /// How many leading items came from `<<` imports (linking prepends them).
    pub imported_items: usize,
    /// Whether an `@` primitive is reachable.
    pub defer: DeferInfo,
}

/// Assemble the front end's result from the linked program, the number of items the
/// source file itself declared, and the checker's type table.
pub fn checked(program: Program, own_item_count: usize, types: TypeTable, source: String) -> (r:
    Checked)
    requires
        own_item_count <= program.items@.len(),
    ensures
        r.imported_items == program.items@.len() - own_item_count,
        r.defer.uses_deferral == items_mention_at(program.items@),
        r.program == program,
        r.types == types,
        r.source == source,
{
    let imported_items = program.items.len() - own_item_count;
    let defer = analyze(&program);
    Checked { program, types, source, imported_items, defer }
}

} // verus!
