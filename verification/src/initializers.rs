//! Typing the initializer of a declared binding against its declared type,
//! or inferring the binding's type from it, and the rule that an owned value
//! handed over by bare name must state its operation.
use crate::apparent::{apparent_step, apparent_within, apparent_resolves, ApparentStep, result_view, type_at};
use crate::bindings::{
    after_eventual_binding, borrow_binding_outcome, check_owners, declared_origin, take_loans,
    uninitialized_error, BorrowPass, BorrowSource,
};
use crate::config::TypecheckCapabilityModel;
use crate::errors::{with_fallback, TypecheckError, TypecheckErrorKind, TypecheckErrorView};
use crate::exprs::{ErrorCallMode, TypeContext, TypedExpr};
use crate::generics::assignment_outcome;
use crate::ids::{ScopeId, SymbolId, SyntaxOrigin, SyntaxOriginView};
use crate::model::{TypedProgram, TypedSymbol};
use crate::ownership::{FactsView, OwnershipView};
use crate::rejections::{error_at, origin_view, plain_use_error, shell_conversion_outcome};
use crate::resolution::{chain_lookup, Resolution, SymbolKind};
use crate::scope_rules::{declared_in_routine, top_level_binding_outcome};
use crate::shapes::{
    checked_type_contains_generic_param, declared_type_of, nests_eventual, ownership_moves_on_transfer,
    reaches, TypeQuery,
};
use crate::text::{owned, push_text};
use crate::transfers::after_transfer;
use crate::types::{intern_spec, CheckedTypeId, CheckedTypeView};
use crate::walk::{
    borrow_source, expr_transfer, node_origin, node_origin_at, node_outcome, stripped, stripped_expr,
    walk_ready, Expr, OwnershipOption, UnaryOperator,
};
use vstd::prelude::*;

verus! {

/// Whether handing on `value`, of type `actual`, `describe`d as where it
/// goes, is refused: a bare name holding a value that moves on transfer, of
/// a type with no generic parameter in it, must state its operation.
pub open spec fn untagged_transfer_outcome(
    facts: FactsView,
    symbols: Map<SymbolId, TypedSymbol>,
    resolution: &Resolution,
    value: Expr,
    actual: CheckedTypeId,
    describe: Seq<char>,
) -> Result<(), TypecheckErrorView> {
    if stripped(value) is Identifier && reaches(TypeQuery::Moves, facts, symbols, actual, true, Set::empty())
        && !reaches(TypeQuery::GenericParameter, facts, symbols, actual, true, Set::empty()) {
        Err(
            error_at(
                TypecheckErrorKind::Ownership,
                "an owned value "@ + describe
                    + " must state its operation: use '[mov]', '[cpy]', or '[cln]'"@,
                origin_view(node_origin_at(resolution, value)),
            ),
        )
    } else {
        Ok(())
    }
}

/// Refuses handing on the owned value of a bare name without stating the
/// operation: `describe` says where the value goes.
pub fn reject_untagged_owned_transfer(
    typed: &TypedProgram,
    resolution: &Resolution,
    value: &Expr,
    actual: CheckedTypeId,
    describe: &str,
) -> (r: Result<(), TypecheckError>)
    ensures
        crate::apparent::result_view(r) == untagged_transfer_outcome(
            typed.facts(),
            typed.symbol_facts(),
            resolution,
            *value,
            actual,
            describe@,
        ),
{
    let bare = match stripped_expr(value) {
        Expr::Identifier { .. } => true,
        _ => false,
    };
    if bare && ownership_moves_on_transfer(typed, actual) && !checked_type_contains_generic_param(typed, actual) {
        let mut message = owned("an owned value ");
        push_text(&mut message, describe);
        push_text(&mut message, " must state its operation: use '[mov]', '[cpy]', or '[cln]'");
        return Err(TypecheckError::at(TypecheckErrorKind::Ownership, message.as_str(), node_origin(resolution, value)));
    }
    Ok(())
}

/// What declaring a binding leaves: its initializer's typed value or a
/// diagnostic, and the facts, ownership state and symbol facts after it.
pub struct BindingOutcome {
    pub result: Result<TypedExpr, TypecheckErrorView>,
    pub facts: FactsView,
    pub ownership: OwnershipView,
    pub symbols: Map<SymbolId, TypedSymbol>,
}

/// How an initializer of binding `name` is named in diagnostics.
pub open spec fn initializer_label(name: Seq<char>) -> Seq<char> {
    "initializer for '"@ + name + "'"@
}

/// Where `value` is written, when known.
pub open spec fn value_origin(resolution: &Resolution, value: Expr) -> Option<SyntaxOriginView> {
    origin_view(node_origin_at(resolution, value))
}

/// `a` when known, else `b`.
pub open spec fn first_known<T>(a: Option<T>, b: Option<T>) -> Option<T> {
    match a {
        Some(x) => Some(x),
        None => b,
    }
}

/// Where name resolution says `symbol` is declared, as it recorded it.
pub open spec fn declared_at(resolution: &Resolution, symbol: SymbolId) -> Option<SyntaxOrigin> {
    if resolution.symbols.as_map().contains_key(symbol) {
        resolution.symbols.as_map()[symbol].origin
    } else {
        None
    }
}

/// An error of typing a value, placed at `origin` when it has no position
/// of its own.
pub open spec fn placed(
    r: Result<TypedExpr, TypecheckErrorView>,
    origin: Option<SyntaxOriginView>,
) -> Result<TypedExpr, TypecheckErrorView> {
    match r {
        Ok(e) => Ok(e),
        Err(e) => Err(with_fallback(e, origin)),
    }
}

/// The type behind one owned or borrowed wrapper of `t`, or `t` itself.
pub open spec fn shell_inner(facts: FactsView, t: CheckedTypeId) -> CheckedTypeId {
    match type_at(facts, t) {
        Some(CheckedTypeView::Owned { inner }) => inner,
        Some(CheckedTypeView::Borrowed { inner, .. }) => inner,
        _ => t,
    }
}

/// Whether `value` is a loan expression: `#place` or `[bor]place`.
pub open spec fn is_borrow_expression(value: Expr) -> bool {
    match stripped(value) {
        Expr::OwnershipOp { options, .. } => options@.contains(OwnershipOption::Borrow),
        Expr::UnaryOp { op: UnaryOperator::BorrowFrom, .. } => true,
        _ => false,
    }
}

/// The place a loan expression borrows, or `value` itself.
pub open spec fn loaned_place(value: Expr) -> Expr {
    match stripped(value) {
        Expr::OwnershipOp { options, operand } => if options@.contains(OwnershipOption::Borrow) {
            *operand
        } else {
            stripped(value)
        },
        Expr::UnaryOp { op: UnaryOperator::BorrowFrom, operand } => *operand,
        _ => stripped(value),
    }
}

/// The value a borrow binding's initializer lends without typing it: a
/// loan of a bare name whose declared type is known is a value of that
/// type, with one owned or borrowed wrapper taken off.
pub open spec fn borrowed_name_value(
    facts: FactsView,
    symbols: Map<SymbolId, TypedSymbol>,
    resolution: &Resolution,
    value: Expr,
) -> Option<TypedExpr> {
    if stripped(loaned_place(value)) is Identifier {
        match borrow_source(resolution, value) {
            Some(owner) => match declared_type_of(symbols, owner) {
                Some(t) => Some(TypedExpr { value_type: Some(shell_inner(facts, t)), recoverable_effect: None }),
                None => None,
            },
            None => None,
        }
    } else {
        None
    }
}

/// What a borrow binding with initializer `value` lends from: the
/// initializer's position and its one owner, if it names one.
pub open spec fn loan_source(resolution: &Resolution, value: Expr) -> BorrowSource {
    BorrowSource {
        origin: value_origin(resolution, value),
        owners: match borrow_source(resolution, value) {
            Some(owner) => seq![owner],
            None => seq![],
        },
    }
}

/// The refusal of `surface` embedding an eventual in a composite value.
pub open spec fn nested_eventual_outcome(
    facts: FactsView,
    symbols: Map<SymbolId, TypedSymbol>,
    t: CheckedTypeId,
    origin: Option<SyntaxOriginView>,
    surface: Seq<char>,
) -> Result<(), TypecheckErrorView> {
    if nests_eventual(facts, symbols, t) {
        Err(
            error_at(
                TypecheckErrorKind::Ownership,
                surface
                    + " cannot embed the internal eventual type in a composite value in V3; transfer or await the eventual directly"@,
                origin,
            ),
        )
    } else {
        Ok(())
    }
}

/// The check that a binding declared outside any routine has a type a
/// top-level binding may have.
pub open spec fn top_level_check(
    facts: FactsView,
    symbols: Map<SymbolId, TypedSymbol>,
    resolution: &Resolution,
    symbol: SymbolId,
    t: CheckedTypeId,
    origin: Option<SyntaxOriginView>,
) -> Result<(), TypecheckErrorView> {
    if declared_in_routine(resolution.symbols.as_map(), resolution.scopes.as_map(), symbol) {
        Ok(())
    } else {
        top_level_binding_outcome(facts, symbols, t, origin)
    }
}

/// A binding outcome.
pub open spec fn outcome(
    result: Result<TypedExpr, TypecheckErrorView>,
    facts: FactsView,
    ownership: OwnershipView,
    symbols: Map<SymbolId, TypedSymbol>,
) -> BindingOutcome {
    BindingOutcome { result, facts, ownership, symbols }
}

/// The value of a type.
pub open spec fn value_of(t: CheckedTypeId) -> TypedExpr {
    TypedExpr { value_type: Some(t), recoverable_effect: None }
}

/// The ownership state once `symbol`, bound to a value of type `t`, takes on
/// the obligation of a recoverable eventual, if it holds one.
pub open spec fn bound_eventual(
    o: OwnershipView,
    facts: FactsView,
    symbols: Map<SymbolId, TypedSymbol>,
    resolution: &Resolution,
    context: TypeContext,
    symbol: SymbolId,
    t: CheckedTypeId,
    value: Expr,
) -> OwnershipView {
    after_eventual_binding(
        o,
        facts.types,
        symbols,
        symbol,
        t,
        context.scope_id,
        first_known(declared_at(resolution, symbol), node_origin_at(resolution, value)),
    )
}

/// The end of declaring binding `symbol` with a declared type `expected`
/// and an initializer `value` typed as `actual_expr`: the value may not turn
/// a recoverable result into an error shell or use one as a plain value,
/// must have a type, may not embed an eventual, and must be assignable to
/// the declared type once an owned or borrowed wrapper is taken off. A
/// borrow binding then takes its loans and has the borrowed type; another
/// binding takes the value over, stating the operation where it is an owned
/// value named bare, and takes on a recoverable eventual's obligation.
#[verifier::opaque]
pub open spec fn declared_initializer_outcome(
    facts: FactsView,
    symbols: Map<SymbolId, TypedSymbol>,
    o: OwnershipView,
    resolution: &Resolution,
    context: TypeContext,
    name: Seq<char>,
    value: Expr,
    symbol: SymbolId,
    expected: CheckedTypeId,
    actual_expr: TypedExpr,
    borrowing: bool,
    mutable_borrow: bool,
    binding_origin: Option<SyntaxOriginView>,
) -> BindingOutcome {
    let vo = value_origin(resolution, value);
    let label = initializer_label(name);
    match shell_conversion_outcome(facts, symbols, expected, actual_expr, vo, label) {
        Err(e) => outcome(Err(e), facts, o, symbols),
        Ok(_) => if actual_expr.recoverable_effect is Some && context.error_call_mode
            == ErrorCallMode::Propagate {
            outcome(Err(plain_use_error(label, vo)), facts, o, symbols)
        } else {
            match actual_expr.value_type {
                None => outcome(
                    Err(error_at(TypecheckErrorKind::InvalidInput, label + " does not have a type"@, None)),
                    facts,
                    o,
                    symbols,
                ),
                Some(actual) => match nested_eventual_outcome(facts, symbols, actual, vo, label) {
                    Err(e) => outcome(Err(e), facts, o, symbols),
                    Ok(_) => match assignment_outcome(
                        facts,
                        symbols,
                        facts.builtins.never,
                        expected,
                        shell_inner(facts, actual),
                        label,
                        vo,
                    ) {
                        Err(e) => outcome(Err(e), facts, o, symbols),
                        Ok(_) => if borrowing {
                            let b = borrow_binding_outcome(
                                facts.types,
                                o,
                                symbols,
                                resolution,
                                context.scope_id,
                                symbol,
                                Some(loan_source(resolution, value)),
                                expected,
                                mutable_borrow,
                            );
                            let f2 = FactsView { types: b.types, ..facts };
                            match b.result {
                                Err(e) => outcome(Err(e), f2, b.ownership, b.symbols),
                                Ok(borrowed) => match top_level_check(
                                    f2,
                                    b.symbols,
                                    resolution,
                                    symbol,
                                    borrowed,
                                    binding_origin,
                                ) {
                                    Err(e) => outcome(Err(e), f2, b.ownership, b.symbols),
                                    Ok(_) => outcome(Ok(value_of(borrowed)), f2, b.ownership, b.symbols),
                                },
                            }
                        } else {
                            match untagged_transfer_outcome(
                                facts,
                                symbols,
                                resolution,
                                value,
                                actual,
                                "transferred into '"@ + name + "'"@,
                            ) {
                                Err(e) => outcome(Err(e), facts, o, symbols),
                                Ok(_) => match expr_transfer(
                                    facts,
                                    symbols,
                                    resolution,
                                    context.repeating_loop_scope,
                                    value,
                                    actual,
                                ) {
                                    Err(e) => outcome(Err(e), facts, o, symbols),
                                    Ok(record) => outcome(
                                        Ok(value_of(expected)),
                                        facts,
                                        bound_eventual(
                                            after_transfer(o, record),
                                            facts,
                                            symbols,
                                            resolution,
                                            context,
                                            symbol,
                                            actual,
                                            value,
                                        ),
                                        symbols,
                                    ),
                                },
                            }
                        },
                    },
                },
            }
        }
    }
}

/// The end of declaring binding `symbol` with inferred type `t` (the value
/// of the initializer having type `actual`): the type must suit a
/// top-level binding and may not embed an eventual; the binding gets it as
/// its declared type, and, where `takes_value`, takes the value over and
/// takes on a recoverable eventual's obligation.
pub open spec fn inferred_tail(
    facts: FactsView,
    symbols: Map<SymbolId, TypedSymbol>,
    o: OwnershipView,
    resolution: &Resolution,
    context: TypeContext,
    name: Seq<char>,
    value: Expr,
    symbol: SymbolId,
    actual: CheckedTypeId,
    t: CheckedTypeId,
    takes_value: bool,
    binding_origin: Option<SyntaxOriginView>,
) -> BindingOutcome {
    match top_level_check(facts, symbols, resolution, symbol, t, binding_origin) {
        Err(e) => outcome(Err(e), facts, o, symbols),
        Ok(_) => match nested_eventual_outcome(
            facts,
            symbols,
            t,
            value_origin(resolution, value),
            initializer_label(name),
        ) {
            Err(e) => outcome(Err(e), facts, o, symbols),
            Ok(_) => if !symbols.contains_key(symbol) {
                outcome(
                    Err(
                        error_at(
                            TypecheckErrorKind::Internal,
                            "typed symbol table lost an inferred binding"@,
                            None,
                        ),
                    ),
                    facts,
                    o,
                    symbols,
                )
            } else {
                let declared = symbols.insert(symbol, TypedSymbol { declared_type: Some(t), ..symbols[symbol] });
                if takes_value {
                    match expr_transfer(facts, declared, resolution, context.repeating_loop_scope, value, actual) {
                        Err(e) => outcome(Err(e), facts, o, declared),
                        Ok(record) => outcome(
                            Ok(value_of(t)),
                            facts,
                            bound_eventual(
                                after_transfer(o, record),
                                facts,
                                declared,
                                resolution,
                                context,
                                symbol,
                                t,
                                value,
                            ),
                            declared,
                        ),
                    }
                } else {
                    outcome(Ok(value_of(t)), facts, o, declared)
                }
            },
        },
    }
}

/// Declaring binding `symbol` without a declared type, from an initializer
/// `value` typed as `inferred_expr`: a recoverable result cannot be stored
/// plainly, the value must have a type, and an owning or borrowing binding
/// may not wrap an eventual. A borrow binding, or a plain binding of a loan
/// expression of borrowed type, takes its loans and has the borrowed type;
/// a heap-owning binding has the owned type of the value; another binding
/// has the value's type.
#[verifier::opaque]
pub open spec fn inferred_initializer_outcome(
    facts: FactsView,
    symbols: Map<SymbolId, TypedSymbol>,
    o: OwnershipView,
    resolution: &Resolution,
    context: TypeContext,
    name: Seq<char>,
    value: Expr,
    symbol: SymbolId,
    inferred_expr: TypedExpr,
    heap_owned: bool,
    borrowing: bool,
    mutable_borrow: bool,
    binding_origin: Option<SyntaxOriginView>,
) -> BindingOutcome {
    let vo = value_origin(resolution, value);
    let label = initializer_label(name);
    if inferred_expr.recoverable_effect is Some {
        outcome(Err(plain_use_error(label, vo)), facts, o, symbols)
    } else {
        match inferred_expr.value_type {
            None => outcome(
                Err(error_at(TypecheckErrorKind::InvalidInput, label + " does not have a type"@, None)),
                facts,
                o,
                symbols,
            ),
            Some(inferred) => if (heap_owned || borrowing) && reaches(
                TypeQuery::Eventual,
                facts,
                symbols,
                inferred,
                true,
                Set::empty(),
            ) {
                outcome(
                    Err(
                        error_at(
                            TypecheckErrorKind::Ownership,
                            label
                                + " cannot wrap the internal eventual type in an ownership or borrow shell in V3"@,
                            vo,
                        ),
                    ),
                    facts,
                    o,
                    symbols,
                )
            } else {
                let loaned = !heap_owned && !borrowing && is_borrow_expression(value) && type_at(
                    facts,
                    inferred,
                ) matches Some(CheckedTypeView::Borrowed { .. });
                if borrowing || loaned {
                    let b = borrow_binding_outcome(
                        facts.types,
                        o,
                        symbols,
                        resolution,
                        context.scope_id,
                        symbol,
                        Some(loan_source(resolution, value)),
                        shell_inner(facts, inferred),
                        borrowing && mutable_borrow,
                    );
                    let f2 = FactsView { types: b.types, ..facts };
                    match b.result {
                        Err(e) => outcome(Err(e), f2, b.ownership, b.symbols),
                        Ok(t) => inferred_tail(
                            f2,
                            b.symbols,
                            b.ownership,
                            resolution,
                            context,
                            name,
                            value,
                            symbol,
                            inferred,
                            t,
                            false,
                            binding_origin,
                        ),
                    }
                } else if heap_owned {
                    let (types, id) = intern_spec(facts.types, CheckedTypeView::Owned { inner: inferred });
                    inferred_tail(
                        FactsView { types, ..facts },
                        symbols,
                        o,
                        resolution,
                        context,
                        name,
                        value,
                        symbol,
                        inferred,
                        CheckedTypeId(id as usize),
                        true,
                        binding_origin,
                    )
                } else {
                    inferred_tail(
                        facts,
                        symbols,
                        o,
                        resolution,
                        context,
                        name,
                        value,
                        symbol,
                        inferred,
                        inferred,
                        true,
                        binding_origin,
                    )
                }
            },
        }
    }
}

/// What declaring binding `name`, of kind `kind`, with initializer `value`
/// gives. The binding is looked up from the current scope. A heap-owning
/// binding needs heap support. A name resolution did not record gets its
/// initializer typed without expectation. Otherwise a declared type must
/// suit a top-level binding; the initializer of a borrow binding that lends
/// a bare name is the owner's value, any other is typed against the
/// declared type; a binding without an initializer must be a plain one.
pub open spec fn binding_initializer_outcome(
    facts: FactsView,
    symbols: Map<SymbolId, TypedSymbol>,
    o: OwnershipView,
    resolution: &Resolution,
    context: TypeContext,
    name: Seq<char>,
    value: Option<Expr>,
    kind: SymbolKind,
    heap_owned: bool,
    borrowing: bool,
    mutable_borrow: bool,
) -> BindingOutcome {
    let found = chain_lookup(
        resolution.scopes.as_map(),
        resolution.symbols.entries(),
        context.source_unit_id,
        context.scope_id,
        name,
        kind,
    );
    let bo = match found {
        Some(s) => declared_origin(resolution, s),
        None => None,
    };
    if heap_owned && facts.capability_model == TypecheckCapabilityModel::Core {
        outcome(
            Err(
                error_at(
                    TypecheckErrorKind::Unsupported,
                    "heap allocation binding requires heap support and is unavailable in 'fol_model = core'"@,
                    bo,
                ),
            ),
            facts,
            o,
            symbols,
        )
    } else {
        match found {
            None => match value {
                None => outcome(Ok(TypedExpr { value_type: None, recoverable_effect: None }), facts, o, symbols),
                Some(v) => {
                    let (r, f, o1) = node_outcome(facts, symbols, o, resolution, context, v, None);
                    outcome(placed(r, value_origin(resolution, v)), f, o1, symbols)
                },
            },
            Some(s) => {
                let declared = declared_type_of(symbols, s);
                let checked = match declared {
                    Some(d) => top_level_check(facts, symbols, resolution, s, d, bo),
                    None => Ok(()),
                };
                match checked {
                    Err(e) => outcome(Err(e), facts, o, symbols),
                    Ok(_) => match value {
                        None => match uninitialized_error(name, borrowing, heap_owned) {
                            Some(message) => outcome(
                                Err(error_at(TypecheckErrorKind::Uninitialized, message, bo)),
                                facts,
                                o,
                                symbols,
                            ),
                            None => outcome(
                                Ok(
                                    match declared {
                                        Some(d) => value_of(d),
                                        None => TypedExpr { value_type: None, recoverable_effect: None },
                                    },
                                ),
                                facts,
                                o,
                                symbols,
                            ),
                        },
                        Some(v) => {
                            let (r, f, o1) = match (if borrowing {
                                borrowed_name_value(facts, symbols, resolution, v)
                            } else {
                                None
                            }) {
                                Some(e) => (Ok(e), facts, o),
                                None => {
                                    let (r, f, o1) = node_outcome(facts, symbols, o, resolution, context, v, declared);
                                    (placed(r, first_known(bo, value_origin(resolution, v))), f, o1)
                                },
                            };
                            match r {
                                Err(e) => outcome(Err(e), f, o1, symbols),
                                Ok(e) => match declared {
                                    Some(expected) => declared_initializer_outcome(
                                        f,
                                        symbols,
                                        o1,
                                        resolution,
                                        context,
                                        name,
                                        v,
                                        s,
                                        expected,
                                        e,
                                        borrowing,
                                        mutable_borrow,
                                        bo,
                                    ),
                                    None => inferred_initializer_outcome(
                                        f,
                                        symbols,
                                        o1,
                                        resolution,
                                        context,
                                        name,
                                        v,
                                        s,
                                        e,
                                        heap_owned,
                                        borrowing,
                                        mutable_borrow,
                                        bo,
                                    ),
                                },
                            }
                        },
                    },
                }
            },
        }
    }
}

/// Whether no stored type is a named type declared by `symbol`.
pub open spec fn names_no_type(types: Seq<CheckedTypeView>, symbol: SymbolId) -> bool {
    forall|i: int|
        0 <= i < types.len() ==> !(#[trigger] types[i] matches CheckedTypeView::Declared { symbol: s, .. } && s
            == symbol)
}

/// Whether `after` knows the same symbols as `before`, with the same
/// declared types, except perhaps `symbol`.
pub open spec fn same_declarations_but(
    before: Map<SymbolId, TypedSymbol>,
    after: Map<SymbolId, TypedSymbol>,
    symbol: SymbolId,
) -> bool {
    forall|s: SymbolId|
        s != symbol ==> (#[trigger] after.contains_key(s) == before.contains_key(s)) && (before.contains_key(s)
            ==> after[s].declared_type == before[s].declared_type)
}

/// Resolving apparent types never reads the declared type of a symbol that
/// declares no stored type.
proof fn lemma_resolution_ignores(
    facts: FactsView,
    before: Map<SymbolId, TypedSymbol>,
    after: Map<SymbolId, TypedSymbol>,
    symbol: SymbolId,
    id: CheckedTypeId,
    seen: Set<SymbolId>,
    fuel: nat,
)
    requires
        names_no_type(facts.types, symbol),
        same_declarations_but(before, after, symbol),
    ensures
        apparent_within(facts, before, id, seen, fuel) == apparent_within(facts, after, id, seen, fuel),
    decreases fuel,
{
    if fuel > 0 {
        if id.0 < facts.types.len() {
            assert(!(facts.types[id.0 as int] matches CheckedTypeView::Declared { symbol: s, .. } && s == symbol));
        }
        match facts.types[id.0 as int] {
            CheckedTypeView::Declared { symbol: s, .. } => {
                assert(declared_type_of(before, s) == declared_type_of(after, s) || id.0 >= facts.types.len());
            },
            _ => {},
        }
        assert(apparent_step(facts, before, id, seen) == apparent_step(facts, after, id, seen));
        match apparent_step(facts, before, id, seen) {
            ApparentStep::Next(next, seen2) => {
                lemma_resolution_ignores(facts, before, after, symbol, next, seen2, (fuel - 1) as nat);
            },
            _ => {},
        }
    }
}

/// Giving a symbol that declares no stored type a stored declared type
/// keeps the facts ready.
proof fn lemma_ready_redeclared(
    facts: FactsView,
    before: Map<SymbolId, TypedSymbol>,
    after: Map<SymbolId, TypedSymbol>,
    symbol: SymbolId,
)
    requires
        walk_ready(facts, before),
        names_no_type(facts.types, symbol),
        same_declarations_but(before, after, symbol),
        after.contains_key(symbol) && after[symbol].declared_type is Some ==> (after[symbol].declared_type->0).0
            < facts.types.len(),
    ensures
        walk_ready(facts, after),
{
    assert forall|id: CheckedTypeId| id.0 < facts.types.len() implies #[trigger] apparent_resolves(facts, after, id) by {
        assert(apparent_resolves(facts, before, id));
        let n = choose|n: nat| (#[trigger] apparent_within(facts, before, id, Set::empty(), n)) is Some;
        lemma_resolution_ignores(facts, before, after, symbol, id, Set::empty(), n);
    }
    assert forall|s: SymbolId| #[trigger]
        after.contains_key(s) && after[s].declared_type is Some implies (after[s].declared_type->0).0
        < facts.types.len() by {
        if s != symbol {
            assert(before.contains_key(s));
        }
    }
}

/// Checking owners and taking loans for borrow binding `binding` changes
/// no symbol but the binding, and not its declared type.
proof fn lemma_loans_keep_declarations(
    start: BorrowPass,
    binding: SymbolId,
    scope: ScopeId,
    owners: Seq<SymbolId>,
    mutable: bool,
    origin: SyntaxOriginView,
    k: nat,
)
    ensures
        same_declarations_but(start.symbols, check_owners(start, binding, owners, mutable, origin, k).symbols, binding),
        same_declarations_but(start.symbols, take_loans(start, binding, scope, owners, mutable, origin, k).symbols, binding),
        check_owners(start, binding, owners, mutable, origin, k).symbols.contains_key(binding) ==> start.symbols.contains_key(binding)
            && check_owners(start, binding, owners, mutable, origin, k).symbols[binding].declared_type
            == start.symbols[binding].declared_type,
        take_loans(start, binding, scope, owners, mutable, origin, k).symbols == start.symbols,
    decreases k,
{
    if k > 0 {
        lemma_loans_keep_declarations(start, binding, scope, owners, mutable, origin, (k - 1) as nat);
    }
}

/// `e`, placed at `origin` when it has no position of its own.
pub(crate) fn placed_error(e: TypecheckError, origin: Option<SyntaxOrigin>) -> (r: TypecheckError)
    ensures
        r@ == with_fallback(e@, origin_view(origin)),
{
    match origin {
        Some(o) => e.with_fallback_origin(o),
        None => {
            proof {
                assert(with_fallback(e@, None) =~= e@);
            }
            e
        },
    }
}

/// `a` when known, else `b`.
fn first_known_origin(a: Option<SyntaxOrigin>, b: Option<SyntaxOrigin>) -> (r: Option<SyntaxOrigin>)
    ensures
        r == first_known(a, b),
{
    match a {
        Some(x) => Some(x),
        None => b,
    }
}

/// Refuses `surface` embedding an eventual in a composite value.
fn check_nested_eventual(typed: &TypedProgram, t: CheckedTypeId, origin: Option<SyntaxOrigin>, surface: &str) -> (r:
    Result<(), TypecheckError>)
    ensures
        result_view(r) == nested_eventual_outcome(
            typed.facts(),
            typed.symbol_facts(),
            t,
            origin_view(origin),
            surface@,
        ),
{
    crate::rejections::reject_nested_eventual_value(typed, t, origin, surface)
}

/// Whether `value` is a loan expression.
pub(crate) fn borrow_expression(value: &Expr) -> (r: bool)
    ensures
        r == is_borrow_expression(*value),
{
    match stripped_expr(value) {
        Expr::OwnershipOp { options, .. } => crate::walk::has_option(options, OwnershipOption::Borrow),
        Expr::UnaryOp { op: UnaryOperator::BorrowFrom, .. } => true,
        _ => false,
    }
}

/// The value a borrow binding's initializer lends without typing it.
fn borrowed_name(typed: &TypedProgram, resolution: &Resolution, value: &Expr) -> (r: Option<TypedExpr>)
    ensures
        r == borrowed_name_value(typed.facts(), typed.symbol_facts(), resolution, *value),
{
    let place = match stripped_expr(value) {
        Expr::OwnershipOp { options, operand } => if crate::walk::has_option(options, OwnershipOption::Borrow) {
            &**operand
        } else {
            stripped_expr(value)
        },
        Expr::UnaryOp { op: UnaryOperator::BorrowFrom, operand } => &**operand,
        _ => stripped_expr(value),
    };
    match stripped_expr(place) {
        Expr::Identifier { .. } => {},
        _ => {
            return None;
        },
    }
    match crate::walk::find_borrow_source(resolution, value) {
        Some(owner) => match typed.typed_symbol(owner) {
            Some(ts) => match ts.declared_type {
                Some(t) => Some(TypedExpr::value(crate::rejections::owned_or_borrowed_inner(typed, t))),
                None => None,
            },
            None => None,
        },
        None => None,
    }
}

/// What a borrow binding with initializer `value` lends from.
fn loan_source_of(resolution: &Resolution, value: &Expr) -> (r: crate::bindings::BorrowInitializer)
    ensures
        r@ == loan_source(resolution, *value),
{
    let owners = match crate::walk::find_borrow_source(resolution, value) {
        Some(owner) => vec![owner],
        None => Vec::new(),
    };
    let r = crate::bindings::BorrowInitializer { origin: node_origin(resolution, value), owners };
    proof {
        assert(r@.owners =~= loan_source(resolution, *value).owners);
    }
    r
}

/// What the declaration steps ask of the facts, the symbols and the
/// binding `symbol`: the facts are ready, no stored type is declared by the
/// binding, and the walk up from the binding's scope ends.
pub open spec fn declaring_ready(
    facts: FactsView,
    symbols: Map<SymbolId, TypedSymbol>,
    resolution: &Resolution,
    symbol: SymbolId,
) -> bool {
    &&& walk_ready(facts, symbols)
    &&& names_no_type(facts.types, symbol)
    &&& resolution.symbols.as_map().contains_key(symbol) ==> crate::resolution::routine_search_ends(
        resolution.scopes.as_map(),
        resolution.symbols.as_map()[symbol].scope,
    )
}

/// Checks that the binding `symbol`, if declared outside any routine, may
/// have type `t` there.
fn check_top_level(
    typed: &TypedProgram,
    resolution: &Resolution,
    symbol: SymbolId,
    t: CheckedTypeId,
    origin: Option<SyntaxOrigin>,
) -> (r: Result<(), TypecheckError>)
    requires
        declaring_ready(typed.facts(), typed.symbol_facts(), resolution, symbol),
    ensures
        result_view(r) == top_level_check(
            typed.facts(),
            typed.symbol_facts(),
            resolution,
            symbol,
            t,
            origin_view(origin),
        ),
{
    proof {
        crate::walk::lemma_ready_resolves(typed.facts(), typed.symbol_facts(), t);
    }
    crate::scope_rules::reject_unsupported_top_level_binding_type(typed, resolution, symbol, t, origin)
}

/// Registers borrow binding `symbol` over a value of type `inner` lent by
/// `value`, keeping the declaration steps' readiness.
fn lend_to(
    typed: &mut TypedProgram,
    resolution: &Resolution,
    context: TypeContext,
    symbol: SymbolId,
    value: &Expr,
    inner: CheckedTypeId,
    mutable: bool,
) -> (r: Result<CheckedTypeId, TypecheckError>)
    requires
        declaring_ready(old(typed).facts(), old(typed).symbol_facts(), resolution, symbol),
        inner.0 < old(typed).facts().types.len(),
    ensures
        ({
            let b = borrow_binding_outcome(
                old(typed).facts().types,
                old(typed).ownership(),
                old(typed).symbol_facts(),
                resolution,
                context.scope_id,
                symbol,
                Some(loan_source(resolution, *value)),
                inner,
                mutable,
            );
            &&& result_view(r) == b.result
            &&& final(typed).ownership() == b.ownership
            &&& final(typed).symbol_facts() == b.symbols
            &&& final(typed).facts() == (FactsView { types: b.types, ..old(typed).facts() })
        }),
        declaring_ready(final(typed).facts(), final(typed).symbol_facts(), resolution, symbol),
        r matches Ok(t) ==> t.0 < final(typed).facts().types.len(),
{
    let ghost f0 = typed.facts();
    let ghost sy0 = typed.symbol_facts();
    let ghost o0 = typed.ownership();
    let init = loan_source_of(resolution, value);
    let r = crate::bindings::register_borrow_binding(typed, resolution, context.scope_id, symbol, Some(init), inner, mutable);
    proof {
        let src = loan_source(resolution, *value);
        let start = BorrowPass { ownership: o0, symbols: sy0, error: None };
        let origin = crate::bindings::borrow_origin(resolution, symbol, src);
        let t = CheckedTypeView::Borrowed { inner, mutable };
        crate::walk::lemma_intern_keeps_ready(f0, sy0, t);
        let (types, id) = intern_spec(f0.types, t);
        let f1 = FactsView { types, ..f0 };
        if origin is Some && src.owners.len() > 0 {
            let o = origin->Some_0;
            lemma_loans_keep_declarations(start, symbol, context.scope_id, src.owners, mutable, o, src.owners.len());
            let checked = check_owners(start, symbol, src.owners, mutable, o, src.owners.len());
            lemma_loans_keep_declarations(checked, symbol, context.scope_id, src.owners, mutable, o, src.owners.len());
        }
        if typed.facts().types == types {
            assert(names_no_type(types, symbol)) by {
                assert forall|i: int| 0 <= i < types.len() implies !(#[trigger] types[i] matches CheckedTypeView::Declared { symbol: s, .. } && s == symbol) by {
                    if i >= f0.types.len() {
                        assert(types[i] == t);
                    }
                }
            }
            lemma_ready_redeclared(f1, sy0, typed.symbol_facts(), symbol);
        } else {
            lemma_ready_redeclared(f0, sy0, typed.symbol_facts(), symbol);
        }
    }
    r
}

/// Ends declaring binding `symbol` with inferred type `t`.
fn end_inferred(
    typed: &mut TypedProgram,
    resolution: &Resolution,
    context: TypeContext,
    name: &str,
    value: &Expr,
    symbol: SymbolId,
    actual: CheckedTypeId,
    t: CheckedTypeId,
    takes_value: bool,
    binding_origin: Option<SyntaxOrigin>,
) -> (r: Result<TypedExpr, TypecheckError>)
    requires
        declaring_ready(old(typed).facts(), old(typed).symbol_facts(), resolution, symbol),
        loop_walks_end_in(resolution, context),
        t.0 < old(typed).facts().types.len(),
        binding_origin == declared_at(resolution, symbol),
    ensures
        ({
            let out = inferred_tail(
                old(typed).facts(),
                old(typed).symbol_facts(),
                old(typed).ownership(),
                resolution,
                context,
                name@,
                *value,
                symbol,
                actual,
                t,
                takes_value,
                origin_view(binding_origin),
            );
            &&& result_view(r) == out.result
            &&& final(typed).facts() == out.facts
            &&& final(typed).ownership() == out.ownership
            &&& final(typed).symbol_facts() == out.symbols
        }),
{
    match check_top_level(typed, resolution, symbol, t, crate::ids::copy_origin(&binding_origin)) {
        Ok(()) => {},
        Err(e) => {
            return Err(e);
        },
    }
    let mut label = owned("initializer for '");
    push_text(&mut label, name);
    push_text(&mut label, "'");
    match check_nested_eventual(typed, t, node_origin(resolution, value), label.as_str()) {
        Ok(()) => {},
        Err(e) => {
            return Err(e);
        },
    }
    if !typed.set_declared_type(symbol, t) {
        return Err(crate::errors::internal_error("typed symbol table lost an inferred binding", None));
    }
    if takes_value {
        match crate::walk::transfer_operand(typed, resolution, context, value, actual) {
            Ok(()) => {},
            Err(e) => {
                return Err(e);
            },
        }
        crate::bindings::register_recoverable_eventual_binding(
            typed,
            symbol,
            t,
            context.scope_id,
            first_known_origin(binding_origin, node_origin(resolution, value)),
        );
    }
    Ok(TypedExpr::value(t))
}

/// The walk over loops from the context's repeating loop ends.
pub open spec fn loop_walks_end_in(resolution: &Resolution, context: TypeContext) -> bool {
    crate::transfers::loop_walks_end(resolution, context.repeating_loop_scope)
}

/// Ends declaring binding `symbol` of declared type `expected` with an
/// initializer `value` typed as `actual_expr`.
fn end_declared(
    typed: &mut TypedProgram,
    resolution: &Resolution,
    context: TypeContext,
    name: &str,
    value: &Expr,
    symbol: SymbolId,
    expected: CheckedTypeId,
    actual_expr: TypedExpr,
    borrowing: bool,
    mutable_borrow: bool,
    binding_origin: Option<SyntaxOrigin>,
) -> (r: Result<TypedExpr, TypecheckError>)
    requires
        declaring_ready(old(typed).facts(), old(typed).symbol_facts(), resolution, symbol),
        loop_walks_end_in(resolution, context),
        expected.0 < old(typed).facts().types.len(),
        binding_origin == declared_at(resolution, symbol),
    ensures
        ({
            let out = declared_initializer_outcome(
                old(typed).facts(),
                old(typed).symbol_facts(),
                old(typed).ownership(),
                resolution,
                context,
                name@,
                *value,
                symbol,
                expected,
                actual_expr,
                borrowing,
                mutable_borrow,
                origin_view(binding_origin),
            );
            &&& result_view(r) == out.result
            &&& final(typed).facts() == out.facts
            &&& final(typed).ownership() == out.ownership
            &&& final(typed).symbol_facts() == out.symbols
        }),
{
    let ghost sy = typed.symbol_facts();
    proof {
        reveal(declared_initializer_outcome);
    }
    let mut label = owned("initializer for '");
    push_text(&mut label, name);
    push_text(&mut label, "'");
    proof {
        crate::walk::lemma_ready_resolves(typed.facts(), sy, expected);
    }
    match crate::rejections::reject_recoverable_error_shell_conversion(
        typed,
        expected,
        &actual_expr,
        node_origin(resolution, value),
        label.as_str(),
    ) {
        Ok(()) => {},
        Err(e) => {
            return Err(e);
        },
    }
    let actual_expr = match crate::rejections::plain_value_expr(
        typed,
        context,
        actual_expr,
        node_origin(resolution, value),
        label.as_str(),
    ) {
        Ok(e) => e,
        Err(e) => {
            return Err(e);
        },
    };
    let actual = match actual_expr.value_type {
        Some(t) => t,
        None => {
            let mut message = owned(label.as_str());
            push_text(&mut message, " does not have a type");
            return Err(TypecheckError::new(TypecheckErrorKind::InvalidInput, message.as_str()));
        },
    };
    match check_nested_eventual(typed, actual, node_origin(resolution, value), label.as_str()) {
        Ok(()) => {},
        Err(e) => {
            return Err(e);
        },
    }
    let view = crate::rejections::owned_or_borrowed_inner(typed, actual);
    let never = typed.builtin_types().never;
    proof {
        crate::walk::lemma_ready_resolves(typed.facts(), sy, view);
        match (crate::apparent::apparent_outcome(typed.facts(), sy, expected), crate::apparent::apparent_outcome(typed.facts(), sy, view)) {
            (Ok(ea), Ok(_)) => {
                match crate::apparent::shell_payload(typed.facts(), ea) {
                    Some(p) => crate::walk::lemma_ready_resolves(typed.facts(), sy, p),
                    None => {},
                }
            },
            _ => {},
        }
    }
    match crate::generics::ensure_assignable(
        typed,
        never,
        expected,
        view,
        owned(label.as_str()),
        node_origin(resolution, value),
    ) {
        Ok(()) => {},
        Err(e) => {
            return Err(e);
        },
    }
    if borrowing {
        let borrowed = match lend_to(typed, resolution, context, symbol, value, expected, mutable_borrow) {
            Ok(t) => t,
            Err(e) => {
                return Err(e);
            },
        };
        match check_top_level(typed, resolution, symbol, borrowed, binding_origin) {
            Ok(()) => {},
            Err(e) => {
                return Err(e);
            },
        }
        Ok(TypedExpr::value(borrowed))
    } else {
        let mut describe = owned("transferred into '");
        push_text(&mut describe, name);
        push_text(&mut describe, "'");
        match reject_untagged_owned_transfer(typed, resolution, value, actual, describe.as_str()) {
            Ok(()) => {},
            Err(e) => {
                return Err(e);
            },
        }
        match crate::walk::transfer_operand(typed, resolution, context, value, actual) {
            Ok(()) => {},
            Err(e) => {
                return Err(e);
            },
        }
        crate::bindings::register_recoverable_eventual_binding(
            typed,
            symbol,
            actual,
            context.scope_id,
            first_known_origin(binding_origin, node_origin(resolution, value)),
        );
        Ok(TypedExpr::value(expected))
    }
}

/// Ends declaring binding `symbol` without a declared type, from an
/// initializer `value` typed as `inferred_expr`.
fn end_undeclared(
    typed: &mut TypedProgram,
    resolution: &Resolution,
    context: TypeContext,
    name: &str,
    value: &Expr,
    symbol: SymbolId,
    inferred_expr: TypedExpr,
    heap_owned: bool,
    borrowing: bool,
    mutable_borrow: bool,
    binding_origin: Option<SyntaxOrigin>,
) -> (r: Result<TypedExpr, TypecheckError>)
    requires
        declaring_ready(old(typed).facts(), old(typed).symbol_facts(), resolution, symbol),
        loop_walks_end_in(resolution, context),
        crate::walk::value_stored(Ok(inferred_expr), old(typed).facts()),
        binding_origin == declared_at(resolution, symbol),
    ensures
        ({
            let out = inferred_initializer_outcome(
                old(typed).facts(),
                old(typed).symbol_facts(),
                old(typed).ownership(),
                resolution,
                context,
                name@,
                *value,
                symbol,
                inferred_expr,
                heap_owned,
                borrowing,
                mutable_borrow,
                origin_view(binding_origin),
            );
            &&& result_view(r) == out.result
            &&& final(typed).facts() == out.facts
            &&& final(typed).ownership() == out.ownership
            &&& final(typed).symbol_facts() == out.symbols
        }),
{
    let ghost f0 = typed.facts();
    let ghost sy = typed.symbol_facts();
    proof {
        reveal(inferred_initializer_outcome);
    }
    let mut label = owned("initializer for '");
    push_text(&mut label, name);
    push_text(&mut label, "'");
    if inferred_expr.recoverable_effect.is_some() {
        return crate::rejections::reject_recoverable_plain_use(node_origin(resolution, value), label.as_str()).map(
            |u: ()| TypedExpr::none(),
        );
    }
    let inferred = match inferred_expr.value_type {
        Some(t) => t,
        None => {
            let mut message = owned(label.as_str());
            push_text(&mut message, " does not have a type");
            return Err(TypecheckError::new(TypecheckErrorKind::InvalidInput, message.as_str()));
        },
    };
    if (heap_owned || borrowing) && crate::shapes::type_contains_eventual(typed, inferred) {
        let mut message = owned(label.as_str());
        push_text(
            &mut message,
            " cannot wrap the internal eventual type in an ownership or borrow shell in V3",
        );
        return Err(TypecheckError::at(TypecheckErrorKind::Ownership, message.as_str(), node_origin(resolution, value)));
    }
    let view = crate::rejections::owned_or_borrowed_inner(typed, inferred);
    let loaned = !heap_owned && !borrowing && borrow_expression(value) && match typed.type_table().get(inferred) {
        Some(crate::types::CheckedType::Borrowed { .. }) => true,
        _ => false,
    };
    proof {
        match type_at(f0, inferred) {
            Some(CheckedTypeView::Owned { inner }) => crate::walk::lemma_part_stored(f0, inferred, inner),
            Some(CheckedTypeView::Borrowed { inner, .. }) => crate::walk::lemma_part_stored(f0, inferred, inner),
            _ => {},
        }
    }
    if borrowing || loaned {
        let t = match lend_to(typed, resolution, context, symbol, value, view, borrowing && mutable_borrow) {
            Ok(t) => t,
            Err(e) => {
                return Err(e);
            },
        };
        end_inferred(typed, resolution, context, name, value, symbol, inferred, t, false, binding_origin)
    } else if heap_owned {
        let shell = crate::types::CheckedType::Owned { inner: inferred };
        proof {
            crate::walk::lemma_intern_keeps_ready(f0, sy, shell@);
            let (types, id) = intern_spec(f0.types, shell@);
            assert forall|i: int| 0 <= i < types.len() implies !(#[trigger] types[i] matches CheckedTypeView::Declared { symbol: s, .. } && s == symbol) by {
                if i >= f0.types.len() {
                    assert(types[i] == shell@);
                }
            }
        }
        let t = typed.intern_type(shell);
        end_inferred(typed, resolution, context, name, value, symbol, inferred, t, true, binding_origin)
    } else {
        end_inferred(typed, resolution, context, name, value, symbol, inferred, inferred, true, binding_origin)
    }
}

/// Types the declaration of binding `name`, of kind `symbol_kind`, with
/// initializer `value`: `heap_owned` for a heap-owning binding, `borrowing`
/// for a borrow binding, mutable where `mutable_borrow`.
#[verifier::rlimit(60)]
pub fn type_binding_initializer(
    typed: &mut TypedProgram,
    resolution: &Resolution,
    context: TypeContext,
    name: &str,
    value: Option<&Expr>,
    symbol_kind: SymbolKind,
    heap_owned: bool,
    borrowing: bool,
    mutable_borrow: bool,
) -> (r: Result<TypedExpr, TypecheckError>)
    requires
        walk_ready(old(typed).facts(), old(typed).symbol_facts()),
        loop_walks_end_in(resolution, context),
        crate::resolution::lookup_ends(
            resolution.scopes.as_map(),
            resolution.symbols.entries(),
            context.source_unit_id,
            context.scope_id,
            name@,
            symbol_kind,
        ),
        chain_lookup(
            resolution.scopes.as_map(),
            resolution.symbols.entries(),
            context.source_unit_id,
            context.scope_id,
            name@,
            symbol_kind,
        ) matches Some(s) ==> declaring_ready(old(typed).facts(), old(typed).symbol_facts(), resolution, s),
    ensures
        ({
            let out = binding_initializer_outcome(
                old(typed).facts(),
                old(typed).symbol_facts(),
                old(typed).ownership(),
                resolution,
                context,
                name@,
                match value {
                    Some(v) => Some(*v),
                    None => None,
                },
                symbol_kind,
                heap_owned,
                borrowing,
                mutable_borrow,
            );
            &&& result_view(r) == out.result
            &&& final(typed).facts() == out.facts
            &&& final(typed).ownership() == out.ownership
            &&& final(typed).symbol_facts() == out.symbols
        }),
{
    let found = crate::resolution::find_symbol_in_scope_chain(
        resolution,
        context.source_unit_id,
        context.scope_id,
        name,
        symbol_kind,
    );
    let binding_origin = match found {
        Some(s) => match resolution.symbol(s) {
            Some(declaration) => crate::ids::copy_origin(&declaration.origin),
            None => None,
        },
        None => None,
    };
    let core = match typed.capability_model() {
        TypecheckCapabilityModel::Core => true,
        _ => false,
    };
    if heap_owned && core {
        return Err(
            TypecheckError::at(
                TypecheckErrorKind::Unsupported,
                "heap allocation binding requires heap support and is unavailable in 'fol_model = core'",
                binding_origin,
            ),
        );
    }
    let symbol = match found {
        Some(s) => s,
        None => {
            return match value {
                None => Ok(TypedExpr::none()),
                Some(v) => match crate::walk::type_node_with_expectation(typed, resolution, context, v, None) {
                    Ok(e) => Ok(e),
                    Err(e) => Err(placed_error(e, node_origin(resolution, v))),
                },
            };
        },
    };
    let declared = match typed.typed_symbol(symbol) {
        Some(ts) => ts.declared_type,
        None => None,
    };
    match declared {
        Some(d) => match check_top_level(typed, resolution, symbol, d, crate::ids::copy_origin(&binding_origin)) {
            Ok(()) => {},
            Err(e) => {
                return Err(e);
            },
        },
        None => {},
    }
    let v = match value {
        Some(v) => v,
        None => {
            match crate::bindings::reject_uninitialized_ownership_binding(name, borrowing, heap_owned, binding_origin) {
                Ok(()) => {},
                Err(e) => {
                    return Err(e);
                },
            }
            return Ok(
                match declared {
                    Some(d) => TypedExpr::value(d),
                    None => TypedExpr::none(),
                },
            );
        },
    };
    let ghost f0 = typed.facts();
    let lent = if borrowing {
        borrowed_name(typed, resolution, v)
    } else {
        None
    };
    let initializer = match lent {
        Some(e) => {
            proof {
                let t = declared_type_of(typed.symbol_facts(), borrow_source(resolution, *v)->Some_0)->Some_0;
                match type_at(f0, t) {
                    Some(CheckedTypeView::Owned { inner }) => crate::walk::lemma_part_stored(f0, t, inner),
                    Some(CheckedTypeView::Borrowed { inner, .. }) => crate::walk::lemma_part_stored(f0, t, inner),
                    _ => {},
                }
            }
            e
        },
        None => match crate::walk::type_node_with_expectation(typed, resolution, context, v, declared) {
            Ok(e) => {
                proof {
                    assert(names_no_type(typed.facts().types, symbol)) by {
                        assert forall|i: int| 0 <= i < typed.facts().types.len() implies !(
                        #[trigger] typed.facts().types[i] matches CheckedTypeView::Declared { symbol: s, .. } && s
                            == symbol) by {
                            if i < f0.types.len() {
                                assert(typed.facts().types[i] == f0.types[i]);
                            }
                        }
                    }
                }
                e
            },
            Err(e) => {
                return Err(
                    placed_error(e, first_known_origin(crate::ids::copy_origin(&binding_origin), node_origin(resolution, v))),
                );
            },
        },
    };
    match declared {
        Some(expected) => end_declared(
            typed,
            resolution,
            context,
            name,
            v,
            symbol,
            expected,
            initializer,
            borrowing,
            mutable_borrow,
            binding_origin,
        ),
        None => end_undeclared(
            typed,
            resolution,
            context,
            name,
            v,
            symbol,
            initializer,
            heap_owned,
            borrowing,
            mutable_borrow,
            binding_origin,
        ),
    }
}

/// An accepted declaration of a resolved binding with an initializer:
/// without a declared type, the binding gets the type of the value it is
/// given as its declared type; with one, a binding that does not borrow
/// holds a value of the declared type and keeps it.
pub proof fn law_declaration_settles_the_binding_type(
    facts: FactsView,
    symbols: Map<SymbolId, TypedSymbol>,
    o: OwnershipView,
    resolution: &Resolution,
    context: TypeContext,
    name: Seq<char>,
    value: Expr,
    kind: SymbolKind,
    heap_owned: bool,
    borrowing: bool,
    mutable_borrow: bool,
)
    requires
        chain_lookup(
            resolution.scopes.as_map(),
            resolution.symbols.entries(),
            context.source_unit_id,
            context.scope_id,
            name,
            kind,
        ) is Some,
        binding_initializer_outcome(
            facts,
            symbols,
            o,
            resolution,
            context,
            name,
            Some(value),
            kind,
            heap_owned,
            borrowing,
            mutable_borrow,
        ).result is Ok,
    ensures
        ({
            let s = chain_lookup(
                resolution.scopes.as_map(),
                resolution.symbols.entries(),
                context.source_unit_id,
                context.scope_id,
                name,
                kind,
            )->0;
            let out = binding_initializer_outcome(
                facts,
                symbols,
                o,
                resolution,
                context,
                name,
                Some(value),
                kind,
                heap_owned,
                borrowing,
                mutable_borrow,
            );
            &&& declared_type_of(symbols, s) is None ==> out.symbols.contains_key(s)
                && out.symbols[s].declared_type == out.result->Ok_0.value_type
            &&& declared_type_of(symbols, s) is Some && !borrowing ==> out.result->Ok_0.value_type
                == declared_type_of(symbols, s) && out.symbols == symbols
        }),
{
    reveal(inferred_initializer_outcome);
    reveal(declared_initializer_outcome);
}

} // verus!
