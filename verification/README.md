# FOL type checker core, verified

The semantic core of the FOL type checker, written in Verus: the type table
and its rendering, apparent types and assignability, generic inference, the
type-shape questions (channels, shared pointers, borrows, `fin`, move-only
values), and the flow-sensitive ownership state (moves, loans, mutex guards,
recoverable eventuals, deferred reads, branch merges), the typing of
expressions built from comments, literals, names, unary operators
(negation, `not`, reference, dereference, unwrap, borrow-from, give-back),
ownership operations and binary operators, and the typing of record
initialisers, binding declarations, call arguments and `return`.
Functions state their behaviour in `requires`/`ensures`, mostly as
equality with an outcome spec function, and the laws that tie functions
together are proof functions named `law_*`.

Layout of `src/`:

- `sorted_map`, `text`, `ids`, `widths`, `config`, `errors` — building blocks:
  a sorted map with a type invariant, name order and decimal spelling,
  identifiers and source positions, scalar widths, settings, diagnostics.
- `types`, `render` — checked types, interning (canonical ids) and rendering.
- `model`, `facts`, `ownership`, `borrows`, `tasks`, `flows` — the typed
  program (made from a resolution, with the builtin scalar types installed)
  and what the checker records and tracks while walking bodies.
- `apparent`, `shapes`, `generics`, `containers`, `exprs`, `rejections`,
  `bindings`, `linear` — the typing rules on types and ownership state;
  `linear` also holds the rules that `when` paths agree on the linear
  bindings they release and that a loop releases nothing acquired before it.
- `resolution`, `scope_rules`, `workspace` — what the checker reads of name
  resolution (scopes, symbols, name uses, positions), the rules that walk the
  scope tree, and the packages of a workspace.
- `references`, `operators`, `walk`, `records`, `initializers`, `calls`,
  `exits`, `targets` — typing names used as values, the unary and binary
  operators on values, the expression tree (`Expr`) with the walk that
  types it, record initialisers, binding declarations, call arguments,
  `return` (with the rule that a returned loan may not dangle), and which
  assignment targets may be assigned.

Not here: the typing of the other expression forms (`when`, calls as
expressions, containers, field and index access, assignments, loops,
spawn, select, channel access, anonymous functions) and of statement
bodies, and the walk over whole programs and workspaces, including the
linear-resource walk over routine bodies; of these the library holds the decisions they take (call
binding and call-site checks, transfers, borrow registration, linear joins)
as separate functions over plain values. Typing call arguments gives the
generic bindings it inferred; instantiating the signature with them, and
the copy and clone capability checks of ownership operations, are not here.

`tests/` exercises the library on concrete values.
