# quilon

The decisions of the Quilon compiler and of its fiber runtime, as a library whose
functions carry contracts that Verus proves.

## Layout

- `src/` — the verified library.
  - `ast` — the syntax tree the passes read, and Quilon's types with their models.
  - `env` — the type checker's scoped environment (define, lookup, shadowing, retyping).
  - `deferral` — whether a program reaches an `@` leaf IO primitive.
  - `driver` — the front end's own decisions: rejecting `@` declarations, rendering
    diagnostics, finding the `^` entry point, assembling the checked program.
  - `text` — decimal rendering and source lines, for diagnostics.
  - `codegen` — machine types, runtime intrinsic signatures, the lowering plans of the
    `print`/`write`/`__exit` builtins, overload and method symbol mangling, call
    resolution, and the layouts of sum-type values.
  - `runtime` — the scheduler's bookkeeping (slots, ready queue, timers), line reading,
    the retry and partial-write decisions of non-blocking sockets, structured scopes of
    deferred tasks and the promise cell.
- `tests/` — tests of the library on concrete values.
- `app/` — what performs some of those decisions:
  - `codegen`: LLVM emission through inkwell for resolved calls (`generate_call`
    dispatches on `resolve_call`), the `print`/`write`/`__exit` builtins, runtime
    intrinsic declarations, sum-type values and `Result`s. Expression lowering, array and
    `Text` methods and closure calls are supplied by the caller (`ExprLowering`).
  - `driver`: reading the source file around the library's front-end decisions; the
    lexing, linking and checking stages are supplied by the caller (`Stages`).
  - `runtime`: the scheduler's run loop on corosensei coroutines with a mio reactor,
    `@sleep` and `now()`, and the memory primitives over the collector.
  - Not wired: socket I/O, the `@read` line loop, promises and deferred-task scopes.
    Their decisions stand in `src/runtime` (`io`, `lines`, `deferred`), but driving them
    needs readiness- and promise-parking in the scheduler, which this runtime does not
    have.
