//! Typing a name used as a value: the binding it names must still be
//! usable (not moved, loaned out, returned, or an unguarded mutex), and the
//! type it has is recorded for the use.
use crate::apparent::{result_view, type_at};
use crate::errors::{TypecheckError, TypecheckErrorKind, TypecheckErrorView};
use crate::exprs::{TypeContext, TypedExpr};
use crate::facts::node_or_fresh;
use crate::ids::{ReferenceId, SourceUnitId, SymbolId, SyntaxNodeId, SyntaxOrigin, SyntaxOriginView};
use crate::model::{EventualMoveKind, TypedNode, TypedProgram, TypedSymbol};
use crate::ownership::{FactsView, OwnershipView};
use crate::rejections::{error_at, origin_view};
use crate::resolution::{
    find_reference_by_syntax, first_reference, missing_reference_error, origin_for, ReferenceKind,
    Resolution,
};
use crate::scope_rules::{reference_typing, type_for_reference};
use crate::text::{owned, push_text};
use crate::types::CheckedTypeView;
use vstd::prelude::*;

verus! {

/// The recorded position of syntax node `syntax_id`, if any.
pub open spec fn origin_at(resolution: &Resolution, syntax_id: SyntaxNodeId) -> Option<SyntaxOrigin> {
    if resolution.origins.as_map().contains_key(syntax_id) {
        Some(resolution.origins.as_map()[syntax_id])
    } else {
        None
    }
}

/// The facts once the use at `syntax_id` in `unit` is recorded to have
/// type `t`.
pub open spec fn with_node_type(
    facts: FactsView,
    syntax_id: SyntaxNodeId,
    unit: SourceUnitId,
    t: crate::types::CheckedTypeId,
) -> FactsView {
    FactsView {
        nodes: facts.nodes.insert(
            syntax_id,
            TypedNode { inferred_type: Some(t), ..node_or_fresh(facts.nodes, syntax_id, unit) },
        ),
        ..facts
    }
}

/// The facts once the use at `syntax_id` in `unit` is recorded to carry
/// the recoverable effect `effect`.
pub open spec fn with_node_effect(
    facts: FactsView,
    syntax_id: SyntaxNodeId,
    unit: SourceUnitId,
    effect: crate::model::RecoverableCallEffect,
) -> FactsView {
    FactsView {
        nodes: facts.nodes.insert(
            syntax_id,
            TypedNode {
                recoverable_effect: Some(effect),
                ..node_or_fresh(facts.nodes, syntax_id, unit)
            },
        ),
        ..facts
    }
}

/// The facts once what the use at `syntax_id` was typed as is recorded.
pub open spec fn with_use_recorded(
    facts: FactsView,
    syntax_id: SyntaxNodeId,
    unit: SourceUnitId,
    e: TypedExpr,
) -> FactsView {
    let typed = match e.value_type {
        Some(t) => with_node_type(facts, syntax_id, unit, t),
        None => facts,
    };
    match e.recoverable_effect {
        Some(effect) => with_node_effect(typed, syntax_id, unit, effect),
        None => typed,
    }
}

/// Whether `symbol` is declared with a type of the given shape.
pub open spec fn declared_as_eventual(facts: FactsView, symbols: Map<SymbolId, TypedSymbol>, symbol: SymbolId) -> bool {
    symbols.contains_key(symbol) && match symbols[symbol].declared_type {
        Some(t) => type_at(facts, t) matches Some(CheckedTypeView::Eventual { .. }),
        None => false,
    }
}

/// Whether `symbol` is declared as a full channel.
pub open spec fn declared_as_channel(facts: FactsView, symbols: Map<SymbolId, TypedSymbol>, symbol: SymbolId) -> bool {
    symbols.contains_key(symbol) && match symbols[symbol].declared_type {
        Some(t) => type_at(facts, t) matches Some(CheckedTypeView::Channel { .. }),
        None => false,
    }
}

/// The diagnostic for using the moved binding `symbol`, named `name`: it
/// says how an eventual was consumed, or what kind of binding moved, and
/// points at the move.
pub open spec fn moved_use_error(
    facts: FactsView,
    symbols: Map<SymbolId, TypedSymbol>,
    o: OwnershipView,
    symbol: SymbolId,
    name: Seq<char>,
    origin: Option<SyntaxOriginView>,
) -> TypecheckErrorView {
    let kind = if o.eventual_moves.contains_key(symbol) {
        Some(o.eventual_moves[symbol])
    } else {
        None
    };
    let message = match kind {
        Some(EventualMoveKind::Await) => "use of consumed eventual binding '"@ + name + "'"@,
        Some(EventualMoveKind::Transfer) => "use of moved eventual binding '"@ + name + "'"@,
        None => {
            if declared_as_eventual(facts, symbols, symbol) {
                "use of moved eventual binding '"@ + name + "'"@
            } else if declared_as_channel(facts, symbols, symbol) {
                "use of moved channel receiver binding '"@ + name + "'"@
            } else {
                "use of moved heap-owned binding '"@ + name + "'"@
            }
        },
    };
    let label = match kind {
        Some(EventualMoveKind::Await) => "eventual consumed by await here"@,
        Some(EventualMoveKind::Transfer) => "eventual ownership transferred here"@,
        None => "ownership moved here"@,
    };
    TypecheckErrorView {
        kind: TypecheckErrorKind::Ownership,
        message,
        origin,
        related: seq![(o.moved_bindings[symbol], label)],
    }
}

/// Why the binding `symbol`, named `name` and used at `origin`, cannot be
/// used as a value, if it cannot: an eventual inside an error-only deferred
/// block, a mutex handle outside a mutex parameter, a moved binding, an
/// owner with a live loan, or a borrow binding already returned.
pub open spec fn unusable_binding(
    facts: FactsView,
    symbols: Map<SymbolId, TypedSymbol>,
    o: OwnershipView,
    context: TypeContext,
    symbol: SymbolId,
    name: Seq<char>,
    origin: Option<SyntaxOriginView>,
) -> Option<TypecheckErrorView> {
    if context.inside_error_deferred_block && declared_as_eventual(facts, symbols, symbol) {
        Some(
            error_at(
                TypecheckErrorKind::Unsupported,
                "eventual binding '"@ + name
                    + "' cannot be accessed inside edf in V3; await or transfer it in ordinary control flow"@,
                origin,
            ),
        )
    } else if symbols.contains_key(symbol) && symbols[symbol].is_mutex && !context.allow_mutex_handle {
        Some(
            error_at(
                TypecheckErrorKind::InvalidInput,
                "mutex parameter '"@ + name
                    + "' cannot be used as an unguarded whole value; access fields after '"@ + name
                    + ".lock()' or pass the handle to another [mux] parameter"@,
                origin,
            ),
        )
    } else if o.moved_bindings.contains_key(symbol) {
        Some(moved_use_error(facts, symbols, o, symbol, name, origin))
    } else if crate::borrows::loans_on(o.active_borrows, symbol).len() > 0 {
        Some(
            TypecheckErrorView {
                kind: TypecheckErrorKind::OwnerBorrowed,
                message: "owner '"@ + name + "' is inaccessible while borrowed"@,
                origin,
                related: seq![
                    (crate::borrows::loans_on(o.active_borrows, symbol)[0].origin, "borrow created here"@),
                ],
            },
        )
    } else if o.returned_borrows.contains_key(symbol) {
        Some(
            TypecheckErrorView {
                kind: TypecheckErrorKind::BorrowReturned,
                message: "borrow binding '"@ + name + "' was already returned"@,
                origin,
                related: seq![(o.returned_borrows[symbol], "borrow returned here"@)],
            },
        )
    } else {
        None
    }
}

/// What typing the identifier `name`, used at `syntax_id`, as a value
/// comes to, with the facts it leaves: the use must carry a syntax node and
/// have been recorded by resolution; the binding it names must be usable;
/// then it is typed by its symbol and the result recorded for the use.
pub open spec fn identifier_reference_outcome(
    facts: FactsView,
    symbols: Map<SymbolId, TypedSymbol>,
    o: OwnershipView,
    resolution: &Resolution,
    context: TypeContext,
    name: &str,
    syntax_id: Option<SyntaxNodeId>,
) -> (Result<TypedExpr, TypecheckErrorView>, FactsView) {
    match syntax_id {
        None => (
            Err(
                TypecheckErrorView {
                    kind: TypecheckErrorKind::InvalidInput,
                    message: "identifier '"@ + name@ + "' does not retain a syntax id"@,
                    origin: None,
                    related: seq![],
                },
            ),
            facts,
        ),
        Some(id) => match first_reference(
            resolution.references.entries(),
            id,
            ReferenceKind::Identifier,
            0,
        ) {
            None => (Err(missing_reference_error(resolution.origins.as_map(), id, name)), facts),
            Some(reference_id) => {
                let refs = resolution.references.as_map();
                let refusal = if refs.contains_key(reference_id) && refs[reference_id].resolved is Some {
                    unusable_binding(
                        facts,
                        symbols,
                        o,
                        context,
                        refs[reference_id].resolved->0,
                        name@,
                        origin_view(origin_at(resolution, id)),
                    )
                } else {
                    None
                };
                match refusal {
                    Some(e) => (Err(e), facts),
                    None => {
                        let (typing, after) = reference_typing(
                            facts,
                            symbols,
                            resolution,
                            reference_id,
                            origin_at(resolution, id),
                        );
                        match typing {
                            Err(e) => (Err(e), after),
                            Ok(e) => (
                                Ok(e),
                                with_use_recorded(after, id, context.source_unit_id, e),
                            ),
                        }
                    },
                }
            },
        },
    }
}

/// Refuses using the binding `symbol`, named `name`, as a value when it is
/// unusable, at `origin`.
fn reject_unusable_binding(
    typed: &TypedProgram,
    context: TypeContext,
    symbol: SymbolId,
    name: &str,
    origin: &Option<SyntaxOrigin>,
) -> (r: Result<(), TypecheckError>)
    ensures
        match unusable_binding(
            typed.facts(),
            typed.symbol_facts(),
            typed.ownership(),
            context,
            symbol,
            name@,
            origin_view(*origin),
        ) {
            Some(e) => r matches Err(x) && x@ == e,
            None => r is Ok,
        },
{
    let (eventual, channel, is_mutex) = match typed.typed_symbol(symbol) {
        Some(ts) => {
            let shape = match ts.declared_type {
                Some(t) => match typed.type_table().get(t) {
                    Some(crate::types::CheckedType::Eventual { .. }) => (true, false),
                    Some(crate::types::CheckedType::Channel { .. }) => (false, true),
                    _ => (false, false),
                },
                None => (false, false),
            };
            (shape.0, shape.1, ts.is_mutex)
        },
        None => (false, false, false),
    };
    if context.inside_error_deferred_block && eventual {
        let mut message = owned("eventual binding '");
        push_text(&mut message, name);
        push_text(
            &mut message,
            "' cannot be accessed inside edf in V3; await or transfer it in ordinary control flow",
        );
        return Err(
            TypecheckError::at(
                TypecheckErrorKind::Unsupported,
                message.as_str(),
                crate::ids::copy_origin(origin),
            ),
        );
    }
    if is_mutex && !context.allow_mutex_handle {
        let mut message = owned("mutex parameter '");
        push_text(&mut message, name);
        push_text(&mut message, "' cannot be used as an unguarded whole value; access fields after '");
        push_text(&mut message, name);
        push_text(&mut message, ".lock()' or pass the handle to another [mux] parameter");
        return Err(
            TypecheckError::at(
                TypecheckErrorKind::InvalidInput,
                message.as_str(),
                crate::ids::copy_origin(origin),
            ),
        );
    }
    match typed.moved_binding_origin(symbol) {
        Some(moved) => {
            let kind = typed.eventual_move_kind(symbol);
            let mut message = match kind {
                Some(EventualMoveKind::Await) => owned("use of consumed eventual binding '"),
                Some(EventualMoveKind::Transfer) => owned("use of moved eventual binding '"),
                None => {
                    if eventual {
                        owned("use of moved eventual binding '")
                    } else if channel {
                        owned("use of moved channel receiver binding '")
                    } else {
                        owned("use of moved heap-owned binding '")
                    }
                },
            };
            push_text(&mut message, name);
            push_text(&mut message, "'");
            let label = match kind {
                Some(EventualMoveKind::Await) => "eventual consumed by await here",
                Some(EventualMoveKind::Transfer) => "eventual ownership transferred here",
                None => "ownership moved here",
            };
            let e = TypecheckError::at(
                TypecheckErrorKind::Ownership,
                message.as_str(),
                crate::ids::copy_origin(origin),
            ).with_related_origin(moved.copy(), label);
            proof {
                assert(e@.related =~= seq![(moved@, label@)]);
            }
            return Err(e);
        },
        None => {},
    }
    match typed.active_borrow_for_owner(symbol) {
        Some(borrow) => {
            let mut message = owned("owner '");
            push_text(&mut message, name);
            push_text(&mut message, "' is inaccessible while borrowed");
            let e = TypecheckError::at(
                TypecheckErrorKind::OwnerBorrowed,
                message.as_str(),
                crate::ids::copy_origin(origin),
            ).with_related_origin(borrow.origin.copy(), "borrow created here");
            proof {
                assert(e@.related =~= seq![(borrow.origin@, "borrow created here"@)]);
            }
            return Err(e);
        },
        None => {},
    }
    match typed.returned_borrow_origin(symbol) {
        Some(returned) => {
            let mut message = owned("borrow binding '");
            push_text(&mut message, name);
            push_text(&mut message, "' was already returned");
            let e = TypecheckError::at(
                TypecheckErrorKind::BorrowReturned,
                message.as_str(),
                crate::ids::copy_origin(origin),
            ).with_related_origin(returned.copy(), "borrow returned here");
            proof {
                assert(e@.related =~= seq![(returned@, "borrow returned here"@)]);
            }
            return Err(e);
        },
        None => {},
    }
    Ok(())
}

/// Records what the use at `syntax_id` was typed as.
fn record_use(typed: &mut TypedProgram, syntax_id: SyntaxNodeId, unit: SourceUnitId, e: TypedExpr)
    ensures
        final(typed).facts() == with_use_recorded(old(typed).facts(), syntax_id, unit, e),
        final(typed).ownership() == old(typed).ownership(),
        final(typed).symbol_facts() == old(typed).symbol_facts(),
{
    match e.value_type {
        Some(t) => {
            let _ = typed.record_node_type(syntax_id, unit, t);
        },
        None => {},
    }
    match e.recoverable_effect {
        Some(effect) => {
            let _ = typed.record_node_recoverable_effect(syntax_id, unit, effect);
        },
        None => {},
    }
}

/// Types the identifier `name`, used at `syntax_id`, as a value, and
/// records the type for the use.
pub fn type_identifier_reference(
    typed: &mut TypedProgram,
    resolution: &Resolution,
    context: TypeContext,
    name: &str,
    syntax_id: Option<SyntaxNodeId>,
) -> (r: Result<TypedExpr, TypecheckError>)
    ensures
        (result_view(r), final(typed).facts()) == identifier_reference_outcome(
            old(typed).facts(),
            old(typed).symbol_facts(),
            old(typed).ownership(),
            resolution,
            context,
            name,
            syntax_id,
        ),
        final(typed).ownership() == old(typed).ownership(),
        final(typed).symbol_facts() == old(typed).symbol_facts(),
{
    let id = match syntax_id {
        Some(id) => id,
        None => {
            let mut message = owned("identifier '");
            push_text(&mut message, name);
            push_text(&mut message, "' does not retain a syntax id");
            return Err(TypecheckError::new(TypecheckErrorKind::InvalidInput, message.as_str()));
        },
    };
    let reference_id = match find_reference_by_syntax(resolution, id, ReferenceKind::Identifier, name) {
        Ok(r) => r,
        Err(e) => {
            return Err(e);
        },
    };
    let origin = origin_for(resolution, id);
    match resolution.reference(reference_id) {
        Some(reference) => match reference.resolved {
            Some(symbol) => match reject_unusable_binding(typed, context, symbol, name, &origin) {
                Ok(()) => {},
                Err(e) => {
                    return Err(e);
                },
            },
            None => {},
        },
        None => {},
    }
    let e = match type_for_reference(typed, resolution, reference_id, origin) {
        Ok(e) => e,
        Err(x) => {
            return Err(x);
        },
    };
    record_use(typed, id, context.source_unit_id, e);
    Ok(e)
}

/// What typing the qualified identifier `path`, used at `syntax_id`, as a
/// value comes to, with the facts it leaves.
pub open spec fn qualified_reference_outcome(
    facts: FactsView,
    symbols: Map<SymbolId, TypedSymbol>,
    resolution: &Resolution,
    context: TypeContext,
    path: &str,
    syntax_id: Option<SyntaxNodeId>,
) -> (Result<TypedExpr, TypecheckErrorView>, FactsView) {
    match syntax_id {
        None => (
            Err(
                TypecheckErrorView {
                    kind: TypecheckErrorKind::InvalidInput,
                    message: "qualified identifier '"@ + path@ + "' does not retain a syntax id"@,
                    origin: None,
                    related: seq![],
                },
            ),
            facts,
        ),
        Some(id) => match first_reference(
            resolution.references.entries(),
            id,
            ReferenceKind::QualifiedIdentifier,
            0,
        ) {
            None => (Err(missing_reference_error(resolution.origins.as_map(), id, path)), facts),
            Some(reference_id) => {
                let (typing, after) = reference_typing(
                    facts,
                    symbols,
                    resolution,
                    reference_id,
                    origin_at(resolution, id),
                );
                match typing {
                    Err(e) => (Err(e), after),
                    Ok(e) => (Ok(e), with_use_recorded(after, id, context.source_unit_id, e)),
                }
            },
        },
    }
}

/// Types the qualified identifier `path` (written joined), used at
/// `syntax_id`, as a value, and records the type for the use.
pub fn type_qualified_identifier_reference(
    typed: &mut TypedProgram,
    resolution: &Resolution,
    context: TypeContext,
    path: &str,
    syntax_id: Option<SyntaxNodeId>,
) -> (r: Result<TypedExpr, TypecheckError>)
    ensures
        (result_view(r), final(typed).facts()) == qualified_reference_outcome(
            old(typed).facts(),
            old(typed).symbol_facts(),
            resolution,
            context,
            path,
            syntax_id,
        ),
        final(typed).ownership() == old(typed).ownership(),
        final(typed).symbol_facts() == old(typed).symbol_facts(),
{
    let id = match syntax_id {
        Some(id) => id,
        None => {
            let mut message = owned("qualified identifier '");
            push_text(&mut message, path);
            push_text(&mut message, "' does not retain a syntax id");
            return Err(TypecheckError::new(TypecheckErrorKind::InvalidInput, message.as_str()));
        },
    };
    let reference_id = match find_reference_by_syntax(
        resolution,
        id,
        ReferenceKind::QualifiedIdentifier,
        path,
    ) {
        Ok(r) => r,
        Err(e) => {
            return Err(e);
        },
    };
    let e = match type_for_reference(typed, resolution, reference_id, origin_for(resolution, id)) {
        Ok(e) => e,
        Err(x) => {
            return Err(x);
        },
    };
    record_use(typed, id, context.source_unit_id, e);
    Ok(e)
}

/// A binding cannot be read once it moved: after a move of `symbol` at
/// `origin` (not held back by a deferred read), using it as a value is
/// refused; unless an earlier rule already refuses the use, the diagnostic
/// is the moved-binding one and points at the binding's first move.
pub proof fn law_moved_binding_is_unusable(
    facts: FactsView,
    symbols: Map<SymbolId, TypedSymbol>,
    o: OwnershipView,
    context: TypeContext,
    symbol: SymbolId,
    name: Seq<char>,
    origin: SyntaxOriginView,
    use_origin: Option<SyntaxOriginView>,
)
    requires
        crate::ownership::first_deferred_use(o, symbol) is None,
    ensures
        ({
            let after = crate::transfers::after_move(o, symbol, origin);
            let first = if o.moved_bindings.contains_key(symbol) {
                o.moved_bindings[symbol]
            } else {
                origin
            };
            &&& unusable_binding(facts, symbols, after, context, symbol, name, use_origin) is Some
            &&& !(context.inside_error_deferred_block && declared_as_eventual(facts, symbols, symbol))
                && !(symbols.contains_key(symbol) && symbols[symbol].is_mutex && !context.allow_mutex_handle)
                ==> unusable_binding(facts, symbols, after, context, symbol, name, use_origin)
                == Some(moved_use_error(facts, symbols, after, symbol, name, use_origin))
                && moved_use_error(facts, symbols, after, symbol, name, use_origin).related[0].0 == first
        }),
{
}

} // verus!
