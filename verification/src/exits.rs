//! Typing `return`: the value against the routine's declared return type,
//! the rule that a returned loan may not dangle, and leaving the routine
//! with no recoverable eventual unhandled.
use crate::apparent::{result_view, type_at};
use crate::errors::{with_fallback, TypecheckError, TypecheckErrorKind, TypecheckErrorView};
use crate::exprs::{ErrorCallMode, TypeContext, TypedExpr};
use crate::generics::assignment_outcome;
use crate::ids::{SymbolId, SyntaxOrigin, SyntaxOriginView};
use crate::initializers::{is_borrow_expression, loaned_place, untagged_transfer_outcome};
use crate::model::{ActiveBorrowView, TypedProgram, TypedSymbol};
use crate::ownership::{FactsView, OwnershipView};
use crate::rejections::{error_at, origin_view, plain_use_error, shell_conversion_outcome};
use crate::resolution::{routine_search_ends, Resolution};
use crate::scope_rules::{exit_outcome, in_routine};
use crate::transfers::after_transfer;
use crate::types::{CheckedTypeId, CheckedTypeView};
use crate::walk::{borrow_source, expr_transfer, node_origin_at, node_outcome, root_identifier, walk_ready, Expr};
use vstd::prelude::*;

verus! {

/// The binding a chain of loans from `binding` is rooted in, within `fuel`
/// steps: the latest loan each borrowing binding took is followed to its
/// owner, until a binding took none or lent from itself.
pub open spec fn loan_root_within(history: Map<SymbolId, ActiveBorrowView>, binding: SymbolId, fuel: nat) -> Option<
    SymbolId,
>
    decreases fuel,
{
    if !history.contains_key(binding) || history[binding].owner == binding {
        Some(binding)
    } else if fuel == 0 {
        None
    } else {
        loan_root_within(history, history[binding].owner, (fuel - 1) as nat)
    }
}

/// Whether the chain of loans from `binding` ends.
pub open spec fn loan_chain_ends(history: Map<SymbolId, ActiveBorrowView>, binding: SymbolId) -> bool {
    exists|fuel: nat| (#[trigger] loan_root_within(history, binding, fuel)) is Some
}

/// The binding the chain of loans from `binding` is rooted in.
pub open spec fn loan_root(history: Map<SymbolId, ActiveBorrowView>, binding: SymbolId) -> SymbolId {
    loan_root_within(
        history,
        binding,
        choose|fuel: nat| (#[trigger] loan_root_within(history, binding, fuel)) is Some,
    )->0
}

/// Following a chain of loans that ends gives the same root with more
/// steps to spare.
proof fn lemma_loan_root_stable(history: Map<SymbolId, ActiveBorrowView>, binding: SymbolId, fuel: nat, more: nat)
    requires
        loan_root_within(history, binding, fuel) is Some,
        fuel <= more,
    ensures
        loan_root_within(history, binding, more) == loan_root_within(history, binding, fuel),
    decreases fuel,
{
    if history.contains_key(binding) && history[binding].owner != binding {
        lemma_loan_root_stable(history, history[binding].owner, (fuel - 1) as nat, (more - 1) as nat);
    }
}

/// A loan expression of no named place: a loan of a temporary value.
pub open spec fn borrows_temporary(value: Expr) -> bool {
    is_borrow_expression(value) && root_identifier(loaned_place(value)) is None
}

/// Whether the binding `root` holds a borrowed value, so that a loan rooted
/// in it does not outlive what it borrows.
pub open spec fn holds_borrowed_input(facts: FactsView, symbols: Map<SymbolId, TypedSymbol>, root: SymbolId) -> bool {
    symbols.contains_key(root) && match symbols[root].declared_type {
        Some(t) => type_at(facts, t) matches Some(CheckedTypeView::Borrowed { .. }),
        None => false,
    }
}

/// The name resolution gave `symbol`, or `value`.
pub open spec fn name_or_value(resolution: &Resolution, symbol: SymbolId) -> Seq<char> {
    if resolution.symbols.as_map().contains_key(symbol) {
        resolution.symbols.as_map()[symbol].name@
    } else {
        "value"@
    }
}

/// Whether returning `value`, of type `actual`, hands out a loan that
/// dangles once the routine returns: a loan of a temporary, or a loan whose
/// chain is rooted in a binding that does not hold a borrowed value.
pub open spec fn dangling_return(
    facts: FactsView,
    symbols: Map<SymbolId, TypedSymbol>,
    o: OwnershipView,
    resolution: &Resolution,
    value: Expr,
    actual: CheckedTypeId,
    at: Option<SyntaxOriginView>,
) -> Result<(), TypecheckErrorView> {
    if type_at(facts, actual) matches Some(CheckedTypeView::Borrowed { .. }) {
        if borrows_temporary(value) {
            Err(
                error_at(
                    TypecheckErrorKind::Ownership,
                    "cannot return a borrow of a temporary value; the borrow would dangle after the routine returns"@,
                    at,
                ),
            )
        } else {
            match borrow_source(resolution, value) {
                Some(source) => {
                    let root = loan_root(o.borrow_history, source);
                    if holds_borrowed_input(facts, symbols, root) {
                        Ok(())
                    } else {
                        Err(
                            error_at(
                                TypecheckErrorKind::Ownership,
                                "cannot return a borrow of the owned local '"@ + name_or_value(resolution, root)
                                    + "'; the borrow would dangle after the routine returns"@,
                                at,
                            ),
                        )
                    }
                },
                None => Ok(()),
            }
        }
    } else {
        Ok(())
    }
}

/// What `return`, with `value` if given, comes to before the routine is
/// left: a routine without a declared return type takes no value, one with
/// it needs one; the value is typed against the return type (as a single
/// transfer, whatever loop it stands in), may not turn a recoverable result
/// into an error shell or use one as a plain value, must have a type
/// assignable to the return type, may not hand out a dangling loan, states
/// its operation where it is an owned value named bare, and is handed over.
pub open spec fn return_value_outcome(
    facts: FactsView,
    symbols: Map<SymbolId, TypedSymbol>,
    o: OwnershipView,
    resolution: &Resolution,
    context: TypeContext,
    value: Option<Expr>,
) -> (Result<(), TypecheckErrorView>, FactsView, OwnershipView) {
    match context.routine_return_type {
        None => match value {
            Some(_) => (
                Err(
                    error_at(
                        TypecheckErrorKind::InvalidInput,
                        "return with a value requires a declared routine return type in V1"@,
                        None,
                    ),
                ),
                facts,
                o,
            ),
            None => (Ok(()), facts, o),
        },
        Some(expected) => match value {
            None => (
                Err(
                    error_at(
                        TypecheckErrorKind::InvalidInput,
                        "return requires a value for routines with a declared return type"@,
                        None,
                    ),
                ),
                facts,
                o,
            ),
            Some(v) => {
                let single = TypeContext { repeating_loop_scope: None, ..context };
                let at = origin_view(node_origin_at(resolution, v));
                let (r, f, o1) = node_outcome(facts, symbols, o, resolution, single, v, Some(expected));
                match r {
                    Err(e) => (Err(with_fallback(e, at)), f, o1),
                    Ok(typed) => match shell_conversion_outcome(f, symbols, expected, typed, at, "return"@) {
                        Err(e) => (Err(e), f, o1),
                        Ok(_) => if typed.recoverable_effect is Some && context.error_call_mode
                            == ErrorCallMode::Propagate {
                            (Err(plain_use_error("return expression"@, at)), f, o1)
                        } else {
                            match typed.value_type {
                                None => (
                                    Err(
                                        error_at(
                                            TypecheckErrorKind::InvalidInput,
                                            "return expression does not have a type"@,
                                            None,
                                        ),
                                    ),
                                    f,
                                    o1,
                                ),
                                Some(actual) => match assignment_outcome(
                                    f,
                                    symbols,
                                    f.builtins.never,
                                    expected,
                                    actual,
                                    "return"@,
                                    at,
                                ) {
                                    Err(e) => (Err(e), f, o1),
                                    Ok(_) => match dangling_return(f, symbols, o1, resolution, v, actual, at) {
                                        Err(e) => (Err(e), f, o1),
                                        Ok(_) => match untagged_transfer_outcome(
                                            f,
                                            symbols,
                                            resolution,
                                            v,
                                            actual,
                                            "returned"@,
                                        ) {
                                            Err(e) => (Err(e), f, o1),
                                            Ok(_) => match expr_transfer(f, symbols, resolution, None, v, actual) {
                                                Err(e) => (Err(e), f, o1),
                                                Ok(record) => (Ok(()), f, after_transfer(o1, record)),
                                            },
                                        },
                                    },
                                },
                            }
                        },
                    },
                }
            },
        },
    }
}

/// Whether `value` is a loan of a temporary value.
fn borrow_of_temporary(value: &Expr) -> (r: bool)
    ensures
        r == borrows_temporary(*value),
{
    if !crate::initializers::borrow_expression(value) {
        return false;
    }
    let place = match crate::walk::stripped_expr(value) {
        Expr::OwnershipOp { options, operand } => if crate::walk::has_option(options, crate::walk::OwnershipOption::Borrow) {
            &**operand
        } else {
            crate::walk::stripped_expr(value)
        },
        Expr::UnaryOp { op: crate::walk::UnaryOperator::BorrowFrom, operand } => &**operand,
        _ => crate::walk::stripped_expr(value),
    };
    crate::walk::root_identifier_of(place).is_none()
}

/// The binding the chain of loans from `binding` is rooted in.
fn root_of_loans(typed: &TypedProgram, binding: SymbolId) -> (r: SymbolId)
    requires
        loan_chain_ends(typed.ownership().borrow_history, binding),
    ensures
        r == loan_root(typed.ownership().borrow_history, binding),
{
    let ghost history = typed.ownership().borrow_history;
    let ghost fuel0 = choose|fuel: nat| (#[trigger] loan_root_within(history, binding, fuel)) is Some;
    let ghost target = loan_root_within(history, binding, fuel0);
    let ghost mut fuel: nat = fuel0;
    let mut root = binding;
    loop
        invariant
            history == typed.ownership().borrow_history,
            loan_root_within(history, root, fuel) == target,
            target is Some,
            target == loan_root_within(history, binding, fuel0),
            loan_root(history, binding) == target->0,
        decreases fuel,
    {
        match typed.borrow_for_binding(root) {
            Some(borrow) => {
                if borrow.owner == root {
                    return root;
                }
                root = borrow.owner;
                proof {
                    fuel = (fuel - 1) as nat;
                }
            },
            None => {
                return root;
            },
        }
    }
}

/// Whether the binding `root` holds a borrowed value.
fn borrowed_input(typed: &TypedProgram, root: SymbolId) -> (r: bool)
    ensures
        r == holds_borrowed_input(typed.facts(), typed.symbol_facts(), root),
{
    match typed.typed_symbol(root) {
        Some(symbol) => match symbol.declared_type {
            Some(t) => match typed.type_table().get(t) {
                Some(crate::types::CheckedType::Borrowed { .. }) => true,
                _ => false,
            },
            None => false,
        },
        None => false,
    }
}

/// Refuses returning `value`, of type `actual`, where the loan it hands
/// out would dangle.
fn check_dangling_return(
    typed: &TypedProgram,
    resolution: &Resolution,
    value: &Expr,
    actual: CheckedTypeId,
    at: Option<SyntaxOrigin>,
) -> (r: Result<(), TypecheckError>)
    requires
        forall|s: SymbolId| loan_chain_ends(typed.ownership().borrow_history, s),
    ensures
        result_view(r) == dangling_return(
            typed.facts(),
            typed.symbol_facts(),
            typed.ownership(),
            resolution,
            *value,
            actual,
            origin_view(at),
        ),
{
    let borrowed = match typed.type_table().get(actual) {
        Some(crate::types::CheckedType::Borrowed { .. }) => true,
        _ => false,
    };
    if !borrowed {
        return Ok(());
    }
    if borrow_of_temporary(value) {
        return Err(
            TypecheckError::at(
                TypecheckErrorKind::Ownership,
                "cannot return a borrow of a temporary value; the borrow would dangle after the routine returns",
                at,
            ),
        );
    }
    match crate::walk::find_borrow_source(resolution, value) {
        Some(source) => {
            let root = root_of_loans(typed, source);
            if borrowed_input(typed, root) {
                Ok(())
            } else {
                let mut message = crate::text::owned("cannot return a borrow of the owned local '");
                match resolution.symbol(root) {
                    Some(symbol) => crate::text::push_text(&mut message, symbol.name.as_str()),
                    None => crate::text::push_text(&mut message, "value"),
                }
                crate::text::push_text(&mut message, "'; the borrow would dangle after the routine returns");
                Err(TypecheckError::at(TypecheckErrorKind::Ownership, message.as_str(), at))
            }
        },
        None => Ok(()),
    }
}

/// Types the value of `return`, when given, in a routine whose declared
/// return type `context` records.
fn type_return_value(
    typed: &mut TypedProgram,
    resolution: &Resolution,
    context: TypeContext,
    value: Option<&Expr>,
) -> (r: Result<(), TypecheckError>)
    requires
        walk_ready(old(typed).facts(), old(typed).symbol_facts()),
        forall|s: SymbolId| loan_chain_ends(old(typed).ownership().borrow_history, s),
        context.routine_return_type matches Some(t) ==> t.0 < old(typed).facts().types.len(),
    ensures
        ({
            let (out, f, o) = return_value_outcome(
                old(typed).facts(),
                old(typed).symbol_facts(),
                old(typed).ownership(),
                resolution,
                context,
                match value {
                    Some(v) => Some(*v),
                    None => None,
                },
            );
            &&& result_view(r) == out
            &&& final(typed).facts() == f
            &&& final(typed).ownership() == o
        }),
        final(typed).symbol_facts() == old(typed).symbol_facts(),
{
    let expected = match context.routine_return_type {
        None => {
            return match value {
                Some(_) => Err(
                    TypecheckError::new(
                        TypecheckErrorKind::InvalidInput,
                        "return with a value requires a declared routine return type in V1",
                    ),
                ),
                None => Ok(()),
            };
        },
        Some(t) => t,
    };
    let v = match value {
        None => {
            return Err(
                TypecheckError::new(
                    TypecheckErrorKind::InvalidInput,
                    "return requires a value for routines with a declared return type",
                ),
            );
        },
        Some(v) => v,
    };
    let ghost f0 = typed.facts();
    let ghost o0 = typed.ownership();
    let ghost sy = typed.symbol_facts();
    let single = TypeContext { repeating_loop_scope: None, ..context };
    proof {
        crate::walk::lemma_walk_keeps_borrow_history(f0, sy, o0, resolution, single, *v, Some(expected));
    }
    let typed_expr = match crate::walk::type_node_with_expectation(typed, resolution, single, v, Some(expected)) {
        Ok(e) => e,
        Err(e) => {
            return Err(crate::initializers::placed_error(e, crate::walk::node_origin(resolution, v)));
        },
    };
    proof {
        crate::walk::lemma_ready_resolves(typed.facts(), sy, expected);
    }
    match crate::rejections::reject_recoverable_error_shell_conversion(
        typed,
        expected,
        &typed_expr,
        crate::walk::node_origin(resolution, v),
        "return",
    ) {
        Ok(()) => {},
        Err(e) => {
            return Err(e);
        },
    }
    let typed_expr = match crate::rejections::plain_value_expr(
        typed,
        single,
        typed_expr,
        crate::walk::node_origin(resolution, v),
        "return expression",
    ) {
        Ok(e) => e,
        Err(e) => {
            return Err(e);
        },
    };
    let actual = match typed_expr.value_type {
        Some(t) => t,
        None => {
            return Err(TypecheckError::new(TypecheckErrorKind::InvalidInput, "return expression does not have a type"));
        },
    };
    let never = typed.builtin_types().never;
    proof {
        crate::walk::lemma_ready_resolves(typed.facts(), sy, actual);
        match (crate::apparent::apparent_outcome(typed.facts(), sy, expected), crate::apparent::apparent_outcome(typed.facts(), sy, actual)) {
            (Ok(ea), Ok(_)) => {
                match crate::apparent::shell_payload(typed.facts(), ea) {
                    Some(p) => crate::walk::lemma_ready_resolves(typed.facts(), sy, p),
                    None => {},
                }
            },
            _ => {},
        }
    }
    match crate::generics::ensure_assignable(
        typed,
        never,
        expected,
        actual,
        crate::text::owned("return"),
        crate::walk::node_origin(resolution, v),
    ) {
        Ok(()) => {},
        Err(e) => {
            return Err(e);
        },
    }
    match check_dangling_return(typed, resolution, v, actual, crate::walk::node_origin(resolution, v)) {
        Ok(()) => {},
        Err(e) => {
            return Err(e);
        },
    }
    match crate::initializers::reject_untagged_owned_transfer(typed, resolution, v, actual, "returned") {
        Ok(()) => {},
        Err(e) => {
            return Err(e);
        },
    }
    crate::walk::transfer_operand(typed, resolution, single, v, actual)
}

/// Types `return`, with `value` if given, at `exit_origin`: the value as
/// `return_value_outcome` says, then leaving the routine refuses an
/// unhandled recoverable eventual of the routine. A return never gives a
/// value to what surrounds it.
pub fn type_return(
    typed: &mut TypedProgram,
    resolution: &Resolution,
    context: TypeContext,
    value: Option<&Expr>,
    exit_origin: Option<SyntaxOrigin>,
) -> (r: Result<TypedExpr, TypecheckError>)
    requires
        walk_ready(old(typed).facts(), old(typed).symbol_facts()),
        forall|s: SymbolId| loan_chain_ends(old(typed).ownership().borrow_history, s),
        forall|s: crate::ids::ScopeId| routine_search_ends(resolution.scopes.as_map(), s),
        context.routine_return_type matches Some(t) ==> t.0 < old(typed).facts().types.len(),
    ensures
        ({
            let (out, f, o) = return_value_outcome(
                old(typed).facts(),
                old(typed).symbol_facts(),
                old(typed).ownership(),
                resolution,
                context,
                match value {
                    Some(v) => Some(*v),
                    None => None,
                },
            );
            &&& final(typed).facts() == f
            &&& final(typed).ownership() == o
            &&& match out {
                Err(e) => r matches Err(x) && x@ == e,
                Ok(_) => result_view(r) == match exit_outcome(
                    resolution.symbols.as_map(),
                    final(typed).obligation_entries(),
                    in_routine(
                        resolution.scopes.as_map(),
                        crate::resolution::nearest_routine(resolution.scopes.as_map(), context.scope_id),
                    ),
                    origin_view(exit_origin),
                    "returning from the routine"@,
                    0,
                ) {
                    Ok(_) => Ok::<TypedExpr, TypecheckErrorView>(
                        TypedExpr { value_type: Some(final(typed).builtin_ids().never), recoverable_effect: None },
                    ),
                    Err(e) => Err(e),
                },
            }
        }),
        final(typed).symbol_facts() == old(typed).symbol_facts(),
{
    match type_return_value(typed, resolution, context, value) {
        Ok(()) => {},
        Err(e) => {
            return Err(e);
        },
    }
    match crate::scope_rules::reject_all_recoverable_eventuals(
        typed,
        resolution,
        context.scope_id,
        exit_origin,
        "returning from the routine",
    ) {
        Ok(()) => {},
        Err(e) => {
            return Err(e);
        },
    }
    Ok(TypedExpr::value(typed.builtin_types().never))
}

} // verus!
