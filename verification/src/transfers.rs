//! What happens to the source of a value at a transfer boundary
//! (assignment, return, call argument, ...): a moved binding or field is
//! recorded as moved, and transfers that cannot be tracked are refused.
use crate::apparent::{result_view, type_at};
use crate::errors::{TypecheckError, TypecheckErrorKind, TypecheckErrorView};
use crate::exprs::TypeContext;
use crate::ids::{ScopeId, SymbolId, SyntaxNodeId, SyntaxOrigin, SyntaxOriginView};
use crate::model::{OwnershipEventKind, OwnershipEventView, TypedProgram, TypedSymbol};
use crate::ownership::{
    conflict_after, first_deferred_use, history_with, or_insert, FactsView, OwnershipView,
};
use crate::rejections::{error_at, origin_view};
use crate::resolution::{
    ancestor_search_ends, is_ancestor, reference_symbol, scope_descends_from, ReferenceKind,
    Resolution, ResolvedSymbol,
};
use crate::shapes::{ownership_moves_on_transfer, reaches, TypeQuery};
use crate::text::{owned, push_text};
use crate::types::{CheckedTypeId, CheckedTypeView};
use vstd::prelude::*;

verus! {

/// Whether a value of type `id` moves rather than copies when transferred.
pub open spec fn moves(facts: FactsView, symbols: Map<SymbolId, TypedSymbol>, id: CheckedTypeId) -> bool {
    reaches(TypeQuery::Moves, facts, symbols, id, true, Set::empty())
}

/// The diagnostic for moving, inside a repeating loop, binding `name`
/// declared outside it.
pub open spec fn outer_move_message(name: Seq<char>) -> Seq<char> {
    "move-only binding '"@ + name
        + "' declared outside a repeating loop cannot be transferred from the loop body"@
}

/// Whether moving `symbol` is refused because the transfer sits in the body
/// of the repeating loop `loop_scope` and the binding is declared outside
/// it: refused at `value_origin`, pointing at the declaration when known.
pub open spec fn repeated_outer_move_outcome(
    scopes: Map<ScopeId, crate::resolution::ResolvedScope>,
    symbols: Map<SymbolId, ResolvedSymbol>,
    loop_scope: Option<ScopeId>,
    value_origin: Option<SyntaxOriginView>,
    symbol: SymbolId,
    name: Seq<char>,
) -> Result<(), TypecheckErrorView> {
    match loop_scope {
        None => Ok(()),
        Some(l) => {
            if !symbols.contains_key(symbol) {
                Err(
                    TypecheckErrorView {
                        kind: TypecheckErrorKind::Internal,
                        message: "resolved move-only binding disappeared before move checking"@,
                        origin: None,
                        related: seq![],
                    },
                )
            } else if is_ancestor(scopes, l, symbols[symbol].scope) {
                Ok(())
            } else {
                Err(
                    TypecheckErrorView {
                        kind: TypecheckErrorKind::Ownership,
                        message: outer_move_message(name),
                        origin: value_origin,
                        related: match symbols[symbol].origin {
                            Some(o) => seq![(o@, "move-only binding declared here"@)],
                            None => seq![],
                        },
                    },
                )
            }
        },
    }
}

/// Walking up from any scope reaches `loop_scope` or ends, when there is a
/// repeating loop.
pub open spec fn loop_walks_end(resolution: &Resolution, loop_scope: Option<ScopeId>) -> bool {
    match loop_scope {
        Some(l) => forall|s: ScopeId| #[trigger] ancestor_search_ends(resolution.scopes.as_map(), s, l),
        None => true,
    }
}

/// Refuses moving binding `symbol`, written `name`, from the body of the
/// repeating loop `repeating_loop_scope` when it is declared outside that
/// loop: the move would run more than once.
pub fn reject_repeated_outer_move(
    resolution: &Resolution,
    repeating_loop_scope: Option<ScopeId>,
    value_origin: Option<SyntaxOrigin>,
    symbol: SymbolId,
    name: &str,
) -> (r: Result<(), TypecheckError>)
    requires
        loop_walks_end(resolution, repeating_loop_scope),
    ensures
        result_view(r) == repeated_outer_move_outcome(
            resolution.scopes.as_map(),
            resolution.symbols.as_map(),
            repeating_loop_scope,
            origin_view(value_origin),
            symbol,
            name@,
        ),
{
    let loop_scope = match repeating_loop_scope {
        Some(l) => l,
        None => {
            return Ok(());
        },
    };
    let declaration = match resolution.symbol(symbol) {
        Some(d) => d,
        None => {
            return Err(
                crate::errors::internal_error(
                    "resolved move-only binding disappeared before move checking",
                    None,
                ),
            );
        },
    };
    proof {
        assert(ancestor_search_ends(resolution.scopes.as_map(), declaration.scope, loop_scope));
    }
    if scope_descends_from(resolution, declaration.scope, loop_scope) {
        return Ok(());
    }
    let mut message = owned("move-only binding '");
    push_text(&mut message, name);
    push_text(
        &mut message,
        "' declared outside a repeating loop cannot be transferred from the loop body",
    );
    let error = TypecheckError::at(TypecheckErrorKind::Ownership, message.as_str(), value_origin);
    match &declaration.origin {
        Some(o) => {
            let r = error.with_related_origin(o.copy(), "move-only binding declared here");
            proof {
                assert(r@.related =~= seq![(o@, "move-only binding declared here"@)]);
            }
            Err(r)
        },
        None => Err(error),
    }
}

/// The symbol the identifier at syntax node `syntax_id` resolved to: that
/// of the first identifier use recorded there, if it resolved.
pub open spec fn identifier_target(resolution: &Resolution, syntax_id: SyntaxNodeId) -> Option<
    SymbolId,
> {
    crate::resolution::resolved_use(resolution, syntax_id, ReferenceKind::Identifier)
}

/// The ownership state after a move of the whole binding `symbol` at
/// `origin`: a move of a binding a deferred block still reads is the
/// pending conflict; otherwise the move joins the binding's history and the
/// binding counts as moved from its first move on.
pub open spec fn after_move(o: OwnershipView, symbol: SymbolId, origin: SyntaxOriginView) -> OwnershipView {
    if first_deferred_use(o, symbol) is Some {
        OwnershipView { conflict: conflict_after(o, symbol, origin), ..o }
    } else {
        OwnershipView {
            history: history_with(
                o.history,
                symbol,
                OwnershipEventView { kind: OwnershipEventKind::Move, origin },
            ),
            moved_bindings: or_insert(o.moved_bindings, symbol, origin),
            ..o
        }
    }
}

/// The ownership state after the eventual `symbol` is consumed, as `kind`
/// says, at `origin`: like a move, and it discharges the binding's
/// recoverable obligation; the first consumption of a binding not yet
/// moved decides how it is recorded.
pub open spec fn after_eventual_consumed(
    o: OwnershipView,
    symbol: SymbolId,
    kind: crate::model::EventualMoveKind,
    origin: SyntaxOriginView,
) -> OwnershipView {
    if first_deferred_use(o, symbol) is Some {
        OwnershipView { conflict: conflict_after(o, symbol, origin), ..o }
    } else {
        OwnershipView {
            eventual_moves: if o.moved_bindings.contains_key(symbol) {
                o.eventual_moves
            } else {
                o.eventual_moves.insert(symbol, kind)
            },
            history: history_with(
                o.history,
                symbol,
                OwnershipEventView { kind: OwnershipEventKind::Move, origin },
            ),
            moved_bindings: or_insert(o.moved_bindings, symbol, origin),
            obligations: o.obligations.remove(symbol),
            ..o
        }
    }
}

/// The ownership state after the field `field` of `symbol` is moved at
/// `origin`, keeping the origin of an earlier move of the same field.
pub open spec fn after_field_move(
    o: OwnershipView,
    symbol: SymbolId,
    field: Seq<char>,
    origin: SyntaxOriginView,
) -> OwnershipView {
    if first_deferred_use(o, symbol) is Some {
        OwnershipView { conflict: conflict_after(o, symbol, origin), ..o }
    } else {
        OwnershipView {
            history: history_with(
                o.history,
                symbol,
                OwnershipEventView { kind: OwnershipEventKind::Move, origin },
            ),
            moved_fields: o.moved_fields.insert(
                symbol,
                or_insert(
                    if o.moved_fields.contains_key(symbol) {
                        o.moved_fields[symbol]
                    } else {
                        Map::empty()
                    },
                    field,
                    origin,
                ),
            ),
            ..o
        }
    }
}

/// What a transfer records: nothing, the move of a binding (an eventual
/// when the flag says so) at a position, the move of one field of a
/// binding at a position, or the await of an eventual binding at a
/// position.
pub enum TransferRecord {
    Nothing,
    Binding(SymbolId, bool, SyntaxOriginView),
    Field(SymbolId, Seq<char>, SyntaxOriginView),
    Awaited(SymbolId, SyntaxOriginView),
}

/// The ownership state after a transfer recorded as `record`.
pub open spec fn after_transfer(o: OwnershipView, record: TransferRecord) -> OwnershipView {
    match record {
        TransferRecord::Nothing => o,
        TransferRecord::Binding(symbol, eventual, origin) => {
            if eventual {
                after_eventual_consumed(
                    o,
                    symbol,
                    crate::model::EventualMoveKind::Transfer,
                    origin,
                )
            } else {
                after_move(o, symbol, origin)
            }
        },
        TransferRecord::Field(symbol, field, origin) => after_field_move(o, symbol, field, origin),
        TransferRecord::Awaited(symbol, origin) => after_eventual_consumed(
            o,
            symbol,
            crate::model::EventualMoveKind::Await,
            origin,
        ),
    }
}

/// What transferring the binding named `name` at syntax node `syntax_id`,
/// holding a value of type `actual`, comes to. A move-only value cannot
/// leave a borrow binding. A value that neither moves nor is an eventual
/// records nothing, nor does an identifier that resolved to no symbol or a
/// transfer without a position. Otherwise the loop rule applies, and the
/// binding is recorded as moved, or as a transferred eventual.
pub open spec fn identifier_transfer(
    facts: FactsView,
    symbols: Map<SymbolId, TypedSymbol>,
    resolution: &Resolution,
    loop_scope: Option<ScopeId>,
    value_origin: Option<SyntaxOriginView>,
    syntax_id: SyntaxNodeId,
    name: Seq<char>,
    actual: CheckedTypeId,
) -> Result<TransferRecord, TypecheckErrorView> {
    let borrowed_move = match type_at(facts, actual) {
        Some(CheckedTypeView::Borrowed { inner, .. }) => moves(facts, symbols, inner),
        _ => false,
    };
    let eventual = type_at(facts, actual) matches Some(CheckedTypeView::Eventual { .. });
    if borrowed_move {
        Err(
            error_at(
                TypecheckErrorKind::Ownership,
                "move-only value cannot be transferred out of borrow binding '"@ + name + "'"@,
                value_origin,
            ),
        )
    } else if !eventual && !moves(facts, symbols, actual) {
        Ok(TransferRecord::Nothing)
    } else {
        match identifier_target(resolution, syntax_id) {
            None => Ok(TransferRecord::Nothing),
            Some(symbol) => match repeated_outer_move_outcome(
                resolution.scopes.as_map(),
                resolution.symbols.as_map(),
                loop_scope,
                value_origin,
                symbol,
                name,
            ) {
                Err(e) => Err(e),
                Ok(()) => match value_origin {
                    Some(o) => Ok(TransferRecord::Binding(symbol, eventual, o)),
                    None => Ok(TransferRecord::Nothing),
                },
            },
        }
    }
}

/// What a transfer did to the program: on success the ownership state
/// records `outcome`'s transfer, on failure nothing changed, and the error
/// is the one `outcome` names.
pub open spec fn transfer_done(
    before: &TypedProgram,
    after: &TypedProgram,
    r: Result<(), TypecheckError>,
    outcome: Result<TransferRecord, TypecheckErrorView>,
) -> bool {
    &&& after.facts() == before.facts()
    &&& after.symbol_facts() == before.symbol_facts()
    &&& match outcome {
        Ok(record) => r is Ok && after.ownership() == after_transfer(before.ownership(), record),
        Err(e) => r matches Err(x) && x@ == e && after.ownership() == before.ownership(),
    }
}

/// Records the transfer of the binding named `name`, used at syntax node
/// `syntax_id` and written at `value_origin`, holding a value of type
/// `actual_type`.
pub fn track_identifier_transfer(
    typed: &mut TypedProgram,
    resolution: &Resolution,
    context: TypeContext,
    value_origin: Option<SyntaxOrigin>,
    syntax_id: SyntaxNodeId,
    name: &str,
    actual_type: CheckedTypeId,
) -> (r: Result<(), TypecheckError>)
    requires
        loop_walks_end(resolution, context.repeating_loop_scope),
    ensures
        transfer_done(
            old(typed),
            final(typed),
            r,
            identifier_transfer(
                old(typed).facts(),
                old(typed).symbol_facts(),
                resolution,
                context.repeating_loop_scope,
                origin_view(value_origin),
                syntax_id,
                name@,
                actual_type,
            ),
        ),
{
    let (borrowed_move, eventual) = match typed.type_table().get(actual_type) {
        Some(crate::types::CheckedType::Borrowed { inner, .. }) => {
            let inner = *inner;
            (ownership_moves_on_transfer(typed, inner), false)
        },
        Some(crate::types::CheckedType::Eventual { .. }) => (false, true),
        _ => (false, false),
    };
    if borrowed_move {
        let mut message = owned("move-only value cannot be transferred out of borrow binding '");
        push_text(&mut message, name);
        push_text(&mut message, "'");
        return Err(TypecheckError::at(TypecheckErrorKind::Ownership, message.as_str(), value_origin));
    }
    if !eventual && !ownership_moves_on_transfer(typed, actual_type) {
        return Ok(());
    }
    let symbol = match reference_symbol(resolution, syntax_id) {
        Some(s) => s,
        None => {
            return Ok(());
        },
    };
    let origin = crate::ids::copy_origin(&value_origin);
    match reject_repeated_outer_move(
        resolution,
        context.repeating_loop_scope,
        value_origin,
        symbol,
        name,
    ) {
        Ok(()) => {},
        Err(e) => {
            return Err(e);
        },
    }
    match origin {
        Some(o) => {
            if eventual {
                typed.mark_eventual_transferred(symbol, o);
            } else {
                typed.mark_binding_moved(symbol, o);
            }
        },
        None => {},
    }
    Ok(())
}

/// The identifier a field projection is rooted at: `base` in `base.a.b`,
/// with the syntax node of its use and its position.
pub struct ProjectionRoot {
    pub syntax_id: SyntaxNodeId,
    pub name: String,
    pub origin: Option<SyntaxOrigin>,
}

/// What the checker knows of the symbol `symbol`, if anything.
pub open spec fn symbol_fact(symbols: Map<SymbolId, TypedSymbol>, symbol: Option<SymbolId>) -> Option<
    TypedSymbol,
> {
    match symbol {
        Some(s) => {
            if symbols.contains_key(s) {
                Some(symbols[s])
            } else {
                None
            }
        },
        None => None,
    }
}

/// Whether the binding `symbol` is declared with a type that resolves to
/// one claiming custom finalization.
pub open spec fn claims_fin(facts: FactsView, symbols: Map<SymbolId, TypedSymbol>, symbol: SymbolId) -> bool {
    symbols.contains_key(symbol) && match symbols[symbol].declared_type {
        Some(t) => crate::facts::resolves_to_fin(facts, symbols, t),
        None => false,
    }
}

/// The diagnostic for a partial move out of the finalizing value `name`.
pub open spec fn partial_fin_move_message(field: Seq<char>, name: Seq<char>) -> Seq<char> {
    "cannot partially move field '."@ + field + "' out of the 'fin' value '"@ + name
        + "'; a finalized value must be moved whole so its finalizer sees the complete value"@
}

/// What transferring the move-only field `field` of a projection rooted at
/// `root` comes to. A temporary record surrenders the field freely. A field
/// cannot leave a borrowed or mutex-guarded root. A field of a binding named
/// directly is moved on its own, unless the binding finalizes, which must
/// move whole; a deeper projection consumes its whole root binding.
pub open spec fn field_transfer(
    facts: FactsView,
    symbols: Map<SymbolId, TypedSymbol>,
    resolution: &Resolution,
    loop_scope: Option<ScopeId>,
    value_origin: Option<SyntaxOriginView>,
    root: Option<ProjectionRoot>,
    direct: bool,
    field: Seq<char>,
    actual: CheckedTypeId,
) -> Result<TransferRecord, TypecheckErrorView> {
    match root {
        None => Ok(TransferRecord::Nothing),
        Some(root) => {
            let symbol = identifier_target(resolution, root.syntax_id);
            let fact = symbol_fact(symbols, symbol);
            let borrowed_root = match fact {
                Some(ts) => match ts.declared_type {
                    Some(t) => type_at(facts, t) matches Some(CheckedTypeView::Borrowed { .. }),
                    None => false,
                },
                None => false,
            };
            let mutex_root = match fact {
                Some(ts) => ts.is_mutex,
                None => false,
            };
            if borrowed_root || mutex_root {
                Err(
                    error_at(
                        TypecheckErrorKind::Ownership,
                        "move-only field projection '."@ + field
                            + "' cannot be transferred from a "@ + (if borrowed_root {
                            "borrowed"@
                        } else {
                            "mutex-guarded"@
                        }) + " value"@,
                        value_origin,
                    ),
                )
            } else if direct && symbol is Some && value_origin is Some {
                let s = symbol->Some_0;
                let o = value_origin->Some_0;
                match repeated_outer_move_outcome(
                    resolution.scopes.as_map(),
                    resolution.symbols.as_map(),
                    loop_scope,
                    value_origin,
                    s,
                    root.name@,
                ) {
                    Err(e) => Err(e),
                    Ok(()) => {
                        if claims_fin(facts, symbols, s) {
                            Err(
                                error_at(
                                    TypecheckErrorKind::Ownership,
                                    partial_fin_move_message(field, root.name@),
                                    Some(o),
                                ),
                            )
                        } else {
                            Ok(TransferRecord::Field(s, field, o))
                        }
                    },
                }
            } else {
                identifier_transfer(
                    facts,
                    symbols,
                    resolution,
                    loop_scope,
                    origin_view(root.origin),
                    root.syntax_id,
                    root.name@,
                    actual,
                )
            }
        },
    }
}

/// Records the transfer of the move-only field `field` of a projection
/// written at `value_origin` and rooted at `root`; `direct` says whether the
/// projection's object is the root identifier itself.
pub fn track_move_only_field_transfer(
    typed: &mut TypedProgram,
    resolution: &Resolution,
    context: TypeContext,
    value_origin: Option<SyntaxOrigin>,
    root: Option<ProjectionRoot>,
    direct: bool,
    field: &str,
    actual_type: CheckedTypeId,
) -> (r: Result<(), TypecheckError>)
    requires
        loop_walks_end(resolution, context.repeating_loop_scope),
    ensures
        transfer_done(
            old(typed),
            final(typed),
            r,
            field_transfer(
                old(typed).facts(),
                old(typed).symbol_facts(),
                resolution,
                context.repeating_loop_scope,
                origin_view(value_origin),
                root,
                direct,
                field@,
                actual_type,
            ),
        ),
{
    let root = match root {
        Some(root) => root,
        None => {
            return Ok(());
        },
    };
    let symbol = reference_symbol(resolution, root.syntax_id);
    let (borrowed_root, mutex_root) = match symbol {
        Some(s) => match typed.typed_symbol(s) {
            Some(ts) => {
                let borrowed = match ts.declared_type {
                    Some(t) => match typed.type_table().get(t) {
                        Some(crate::types::CheckedType::Borrowed { .. }) => true,
                        _ => false,
                    },
                    None => false,
                };
                (borrowed, ts.is_mutex)
            },
            None => (false, false),
        },
        None => (false, false),
    };
    if borrowed_root || mutex_root {
        let mut message = owned("move-only field projection '.");
        push_text(&mut message, field);
        push_text(&mut message, "' cannot be transferred from a ");
        push_text(&mut message, if borrowed_root { "borrowed" } else { "mutex-guarded" });
        push_text(&mut message, " value");
        return Err(TypecheckError::at(TypecheckErrorKind::Ownership, message.as_str(), value_origin));
    }
    if direct {
        match (symbol, &value_origin) {
            (Some(s), Some(o)) => {
                let origin = o.copy();
                match reject_repeated_outer_move(
                    resolution,
                    context.repeating_loop_scope,
                    crate::ids::copy_origin(&value_origin),
                    s,
                    root.name.as_str(),
                ) {
                    Ok(()) => {},
                    Err(e) => {
                        return Err(e);
                    },
                }
                let fin = match typed.typed_symbol(s) {
                    Some(ts) => match ts.declared_type {
                        Some(t) => typed.type_resolves_to_fin(t),
                        None => false,
                    },
                    None => false,
                };
                if fin {
                    let mut message = owned("cannot partially move field '.");
                    push_text(&mut message, field);
                    push_text(&mut message, "' out of the 'fin' value '");
                    push_text(&mut message, root.name.as_str());
                    push_text(
                        &mut message,
                        "'; a finalized value must be moved whole so its finalizer sees the complete value",
                    );
                    return Err(
                        TypecheckError::with_origin(
                            TypecheckErrorKind::Ownership,
                            message.as_str(),
                            origin,
                        ),
                    );
                }
                typed.mark_field_moved(s, field, origin);
                return Ok(());
            },
            _ => {},
        }
    }
    track_identifier_transfer(
        typed,
        resolution,
        context,
        root.origin,
        root.syntax_id,
        root.name.as_str(),
        actual_type,
    )
}

/// An operand, such as a value handed across a transfer boundary, as far
/// as ownership tracking reads it.
pub enum ValueOperand {
    /// A binding named directly, used at `syntax_id`.
    Identifier { syntax_id: SyntaxNodeId, name: String, origin: Option<SyntaxOrigin> },
    /// A field projection `object.field` rooted at `root`; `direct` when the
    /// object is the root identifier itself.
    FieldAccess {
        root: Option<ProjectionRoot>,
        direct: bool,
        field: String,
        origin: Option<SyntaxOrigin>,
    },
    /// An indexed projection `container[index]`.
    IndexAccess { origin: Option<SyntaxOrigin> },
    /// Any other expression.
    Other,
}

/// The diagnostic for transferring a move-only projection out of place.
pub open spec fn projection_transfer_error(surface: Seq<char>, origin: Option<SyntaxOriginView>) -> TypecheckErrorView {
    error_at(
        TypecheckErrorKind::Ownership,
        "move-only "@ + surface + " cannot be transferred in V3; partial moves are not supported"@,
        origin,
    )
}

/// What transferring `value`, of type `actual`, comes to: the source
/// binding or field is recorded as moved, a move-only indexed projection is
/// refused, and anything else records nothing.
pub open spec fn value_transfer(
    facts: FactsView,
    symbols: Map<SymbolId, TypedSymbol>,
    resolution: &Resolution,
    loop_scope: Option<ScopeId>,
    value: Option<ValueOperand>,
    actual: CheckedTypeId,
) -> Result<TransferRecord, TypecheckErrorView> {
    match value {
        None => Ok(TransferRecord::Nothing),
        Some(ValueOperand::Identifier { syntax_id, name, origin }) => identifier_transfer(
            facts,
            symbols,
            resolution,
            loop_scope,
            origin_view(origin),
            syntax_id,
            name@,
            actual,
        ),
        Some(ValueOperand::FieldAccess { root, direct, field, origin }) => {
            if moves(facts, symbols, actual) {
                field_transfer(
                    facts,
                    symbols,
                    resolution,
                    loop_scope,
                    origin_view(origin),
                    root,
                    direct,
                    field@,
                    actual,
                )
            } else {
                Ok(TransferRecord::Nothing)
            }
        },
        Some(ValueOperand::IndexAccess { origin }) => {
            if moves(facts, symbols, actual) {
                Err(projection_transfer_error("indexed projection"@, origin_view(origin)))
            } else {
                Ok(TransferRecord::Nothing)
            }
        },
        Some(ValueOperand::Other) => Ok(TransferRecord::Nothing),
    }
}

/// Refuses transferring the move-only `surface` written at `origin`.
fn reject_move_only_projection_transfer(origin: Option<SyntaxOrigin>, surface: &str) -> (r: Result<
    (),
    TypecheckError,
>)
    ensures
        result_view(r) == Err::<(), TypecheckErrorView>(
            projection_transfer_error(surface@, origin_view(origin)),
        ),
{
    let mut message = owned("move-only ");
    push_text(&mut message, surface);
    push_text(&mut message, " cannot be transferred in V3; partial moves are not supported");
    Err(TypecheckError::at(TypecheckErrorKind::Ownership, message.as_str(), origin))
}

/// Records what transferring `value`, of type `actual_type`, does to its
/// source.
pub fn track_value_transfer(
    typed: &mut TypedProgram,
    resolution: &Resolution,
    context: TypeContext,
    value: Option<ValueOperand>,
    actual_type: CheckedTypeId,
) -> (r: Result<(), TypecheckError>)
    requires
        loop_walks_end(resolution, context.repeating_loop_scope),
    ensures
        transfer_done(
            old(typed),
            final(typed),
            r,
            value_transfer(
                old(typed).facts(),
                old(typed).symbol_facts(),
                resolution,
                context.repeating_loop_scope,
                value,
                actual_type,
            ),
        ),
{
    let value = match value {
        Some(v) => v,
        None => {
            return Ok(());
        },
    };
    match value {
        ValueOperand::Identifier { syntax_id, name, origin } => track_identifier_transfer(
            typed,
            resolution,
            context,
            origin,
            syntax_id,
            name.as_str(),
            actual_type,
        ),
        ValueOperand::FieldAccess { root, direct, field, origin } => {
            if ownership_moves_on_transfer(typed, actual_type) {
                track_move_only_field_transfer(
                    typed,
                    resolution,
                    context,
                    origin,
                    root,
                    direct,
                    field.as_str(),
                    actual_type,
                )
            } else {
                Ok(())
            }
        },
        ValueOperand::IndexAccess { origin } => {
            if ownership_moves_on_transfer(typed, actual_type) {
                reject_move_only_projection_transfer(origin, "indexed projection")
            } else {
                Ok(())
            }
        },
        ValueOperand::Other => Ok(()),
    }
}

/// What awaiting `awaited` comes to: an eventual binding named directly is
/// consumed by the await at the await's position, under the loop rule;
/// anything else records nothing.
pub open spec fn await_outcome(
    resolution: &Resolution,
    loop_scope: Option<ScopeId>,
    awaited: ValueOperand,
) -> Result<TransferRecord, TypecheckErrorView> {
    match awaited {
        ValueOperand::Identifier { syntax_id, name, origin } => match identifier_target(
            resolution,
            syntax_id,
        ) {
            None => Ok(TransferRecord::Nothing),
            Some(symbol) => match repeated_outer_move_outcome(
                resolution.scopes.as_map(),
                resolution.symbols.as_map(),
                loop_scope,
                origin_view(origin),
                symbol,
                name@,
            ) {
                Err(e) => Err(e),
                Ok(()) => match origin {
                    Some(o) => Ok(TransferRecord::Awaited(symbol, o@)),
                    None => Ok(TransferRecord::Nothing),
                },
            },
        },
        _ => Ok(TransferRecord::Nothing),
    }
}

/// Records the await of `awaited`: an eventual binding awaited directly is
/// consumed.
pub fn mark_awaited_eventual_binding(
    typed: &mut TypedProgram,
    resolution: &Resolution,
    context: TypeContext,
    awaited: &ValueOperand,
) -> (r: Result<(), TypecheckError>)
    requires
        loop_walks_end(resolution, context.repeating_loop_scope),
    ensures
        transfer_done(
            old(typed),
            final(typed),
            r,
            await_outcome(resolution, context.repeating_loop_scope, *awaited),
        ),
{
    match awaited {
        ValueOperand::Identifier { syntax_id, name, origin } => {
            let symbol = match reference_symbol(resolution, *syntax_id) {
                Some(s) => s,
                None => {
                    return Ok(());
                },
            };
            match reject_repeated_outer_move(
                resolution,
                context.repeating_loop_scope,
                crate::ids::copy_origin(origin),
                symbol,
                name.as_str(),
            ) {
                Ok(()) => {},
                Err(e) => {
                    return Err(e);
                },
            }
            match origin {
                Some(o) => typed.mark_eventual_awaited(symbol, o.copy()),
                None => {},
            }
            Ok(())
        },
        _ => Ok(()),
    }
}

/// What reading field `field` of `object` comes to: a field already moved
/// out of the binding named directly cannot be read, pointing at the move;
/// its sibling fields stay readable.
pub open spec fn moved_field_read_outcome(
    o: OwnershipView,
    resolution: &Resolution,
    object: ValueOperand,
    field: Seq<char>,
) -> Result<(), TypecheckErrorView> {
    match object {
        ValueOperand::Identifier { syntax_id, name, origin } => match identifier_target(
            resolution,
            syntax_id,
        ) {
            Some(symbol) => {
                if o.moved_fields.contains_key(symbol) && o.moved_fields[symbol].contains_key(field) {
                    Err(
                        TypecheckErrorView {
                            kind: TypecheckErrorKind::Ownership,
                            message: "use of moved field '"@ + name@ + "."@ + field + "'"@,
                            origin: origin_view(origin),
                            related: seq![(o.moved_fields[symbol][field], "field moved here"@)],
                        },
                    )
                } else {
                    Ok(())
                }
            },
            None => Ok(()),
        },
        _ => Ok(()),
    }
}

/// Refuses reading field `field` of `object` once that field was moved out
/// of the binding `object` names.
pub fn reject_moved_field_projection(
    typed: &TypedProgram,
    resolution: &Resolution,
    object: &ValueOperand,
    field: &str,
) -> (r: Result<(), TypecheckError>)
    ensures
        result_view(r) == moved_field_read_outcome(typed.ownership(), resolution, *object, field@),
{
    let (syntax_id, name, origin) = match object {
        ValueOperand::Identifier { syntax_id, name, origin } => (*syntax_id, name, origin),
        _ => {
            return Ok(());
        },
    };
    let symbol = match reference_symbol(resolution, syntax_id) {
        Some(s) => s,
        None => {
            return Ok(());
        },
    };
    match typed.moved_field_origin(symbol, field) {
        Some(moved) => {
            let mut message = owned("use of moved field '");
            push_text(&mut message, name.as_str());
            push_text(&mut message, ".");
            push_text(&mut message, field);
            push_text(&mut message, "'");
            let e = TypecheckError::at(
                TypecheckErrorKind::Ownership,
                message.as_str(),
                crate::ids::copy_origin(origin),
            ).with_related_origin(moved.copy(), "field moved here");
            proof {
                assert(e@.related =~= seq![(moved@, "field moved here"@)]);
            }
            Err(e)
        },
        None => Ok(()),
    }
}

/// Refuses looking up, through a move-only field projection at
/// `node_origin`, the index `role` (key or value) of a container: the
/// lookup must not partially move its source.
pub fn reject_move_only_index_projection(
    typed: &TypedProgram,
    node_origin: Option<SyntaxOrigin>,
    field_projection: bool,
    type_id: CheckedTypeId,
    role: &str,
) -> (r: Result<(), TypecheckError>)
    ensures
        result_view(r) == (if moves(typed.facts(), typed.symbol_facts(), type_id) && field_projection {
            Err(
                error_at(
                    TypecheckErrorKind::Ownership,
                    "index "@ + role@
                        + " observation through a move-only field projection is not supported in V3; lookup must not partially move its source"@,
                    origin_view(node_origin),
                ),
            )
        } else {
            Ok(())
        }),
{
    if !ownership_moves_on_transfer(typed, type_id) || !field_projection {
        return Ok(());
    }
    let mut message = owned("index ");
    push_text(&mut message, role);
    push_text(
        &mut message,
        " observation through a move-only field projection is not supported in V3; lookup must not partially move its source",
    );
    Err(TypecheckError::at(TypecheckErrorKind::Ownership, message.as_str(), node_origin))
}

/// Refuses reading a move-only element out of a container by index: at the
/// container, or else at the index.
pub fn reject_move_only_index_result(
    typed: &TypedProgram,
    container_origin: Option<SyntaxOrigin>,
    index_origin: Option<SyntaxOrigin>,
    result_type: CheckedTypeId,
) -> (r: Result<(), TypecheckError>)
    ensures
        result_view(r) == (if moves(typed.facts(), typed.symbol_facts(), result_type) {
            Err(
                error_at(
                    TypecheckErrorKind::Ownership,
                    "move-only indexed projection cannot be read in V3; partial moves are not supported and clone-based reads would duplicate ownership"@,
                    match container_origin {
                        Some(o) => Some(o@),
                        None => origin_view(index_origin),
                    },
                ),
            )
        } else {
            Ok(())
        }),
{
    if !ownership_moves_on_transfer(typed, result_type) {
        return Ok(());
    }
    let origin = match container_origin {
        Some(o) => Some(o),
        None => index_origin,
    };
    Err(
        TypecheckError::at(
            TypecheckErrorKind::Ownership,
            "move-only indexed projection cannot be read in V3; partial moves are not supported and clone-based reads would duplicate ownership",
            origin,
        ),
    )
}

/// Refuses slicing a container of move-only elements, at the container.
pub fn reject_move_only_slice_element(
    typed: &TypedProgram,
    container_origin: Option<SyntaxOrigin>,
    element_type: CheckedTypeId,
) -> (r: Result<(), TypecheckError>)
    ensures
        result_view(r) == (if moves(typed.facts(), typed.symbol_facts(), element_type) {
            Err(
                error_at(
                    TypecheckErrorKind::Ownership,
                    "slices of move-only elements are not supported in V3; slice creation would clone unique ownership"@,
                    origin_view(container_origin),
                ),
            )
        } else {
            Ok(())
        }),
{
    if !ownership_moves_on_transfer(typed, element_type) {
        return Ok(());
    }
    Err(
        TypecheckError::at(
            TypecheckErrorKind::Ownership,
            "slices of move-only elements are not supported in V3; slice creation would clone unique ownership",
            container_origin,
        ),
    )
}

/// A transfer that records a move leaves its source moved from then on:
/// the whole binding, or the one field. Where a deferred block still reads
/// the binding, the move is held as the pending conflict instead. A
/// transfer that records nothing changes nothing.
pub proof fn law_recorded_transfer_leaves_source_moved(o: OwnershipView, record: TransferRecord)
    ensures
        match record {
            TransferRecord::Nothing => after_transfer(o, record) == o,
            TransferRecord::Binding(symbol, _, _) => {
                &&& first_deferred_use(o, symbol) is None ==> after_transfer(
                    o,
                    record,
                ).moved_bindings.contains_key(symbol)
                &&& first_deferred_use(o, symbol) is Some ==> after_transfer(o, record).conflict is Some
            },
            TransferRecord::Awaited(symbol, _) => {
                &&& first_deferred_use(o, symbol) is None ==> after_transfer(
                    o,
                    record,
                ).moved_bindings.contains_key(symbol)
                &&& first_deferred_use(o, symbol) is Some ==> after_transfer(o, record).conflict is Some
            },
            TransferRecord::Field(symbol, field, _) => {
                &&& first_deferred_use(o, symbol) is None ==> after_transfer(
                    o,
                    record,
                ).moved_fields.contains_key(symbol) && after_transfer(
                    o,
                    record,
                ).moved_fields[symbol].contains_key(field)
                &&& first_deferred_use(o, symbol) is Some ==> after_transfer(o, record).conflict is Some
            },
        },
{
}

/// After a binding with no earlier history and no deferred read is moved at
/// `moved` and reinitialized later in the same file at `renewed`, the latest
/// event at or before a position in that file is the move from the move up
/// to the reinitialization, the reinitialization from then on, and there is
/// none before the move or in another file; the binding is not moved.
pub proof fn law_move_then_reinitialize(
    o: OwnershipView,
    symbol: SymbolId,
    moved: SyntaxOriginView,
    renewed: SyntaxOriginView,
    file: Seq<char>,
    line: usize,
    column: usize,
)
    requires
        !o.history.contains_key(symbol),
        first_deferred_use(o, symbol) is None,
        moved.file == Some(file),
        renewed.file == Some(file),
        !crate::ownership::position_le(renewed, moved),
    ensures
        ({
            let after = after_move(o, symbol, moved);
            let history = history_with(
                after.history,
                symbol,
                OwnershipEventView { kind: OwnershipEventKind::Reinitialize, origin: renewed },
            );
            let events = history[symbol];
            &&& !after.moved_bindings.remove(symbol).contains_key(symbol)
            &&& events == seq![
                OwnershipEventView { kind: OwnershipEventKind::Move, origin: moved },
                OwnershipEventView { kind: OwnershipEventKind::Reinitialize, origin: renewed },
            ]
            &&& (crate::ownership::event_at_or_before(moved, file, line, column)
                && !crate::ownership::event_at_or_before(renewed, file, line, column))
                ==> crate::ownership::is_latest_event_before(events, 0, file, line, column)
            &&& crate::ownership::event_at_or_before(renewed, file, line, column)
                ==> crate::ownership::is_latest_event_before(events, 1, file, line, column)
            &&& !crate::ownership::event_at_or_before(moved, file, line, column) ==> forall|j: int|
                !crate::ownership::is_latest_event_before(events, j, file, line, column)
        }),
{
    let after = after_move(o, symbol, moved);
    let e1 = OwnershipEventView { kind: OwnershipEventKind::Move, origin: moved };
    let e2 = OwnershipEventView { kind: OwnershipEventKind::Reinitialize, origin: renewed };
    assert(after.history[symbol] == seq![e1]);
    assert(!seq![e1].contains(e2)) by {
        assert(seq![e1][0] != e2);
    }
    assert(seq![e1].push(e2) =~= seq![e1, e2]);
}

} // verus!
