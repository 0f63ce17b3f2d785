//! Rules that name resolved symbols or walk the scope tree: recoverable
//! eventuals that must be handled before control leaves their scope or
//! routine, or before they are overwritten.
use crate::apparent::{
    apparent_outcome, apparent_resolves, apparent_type_id, cycle_error, result_view, type_at,
};
use crate::borrows::{allows_mutable_borrow, symbol_allows_mutable_borrow};
use crate::errors::{internal_error, TypecheckError, TypecheckErrorKind, TypecheckErrorView};
use crate::exprs::TypedExpr;
use crate::ids::{
    copy_origin, ReferenceId, ScopeId, SourceUnitId, SymbolId, SyntaxNodeId, SyntaxOrigin,
    SyntaxOriginView,
};
use crate::model::{
    DeferredTransferConflictView, RecoverableEventualObligation, TypedProgram, TypedReference,
    TypedSymbol,
};
use crate::ownership::{FactsView, OwnershipView};
use crate::rejections::{error_at, origin_view};
use crate::resolution::{
    ancestor_search_ends, chain_lookup, find_symbol_in_scope_chain, is_ancestor, lookup_ends,
    nearest_routine, nearest_routine_scope, routine_search_ends, scope_descends_from, Resolution,
    ResolvedScope, ResolvedSymbol, SymbolKind,
};
use crate::shapes::{
    ownership_moves_on_transfer, reaches, type_contains_borrowed, type_contains_fin,
    type_contains_shared_pointer, TypeQuery,
};
use crate::text::{decimal, decimal_text, owned, push_text};
use crate::types::{CheckedType, CheckedTypeId, CheckedTypeView, RoutineType};
use vstd::prelude::*;

verus! {

/// The name diagnostics give `symbol`.
pub open spec fn symbol_name(symbols: Map<SymbolId, ResolvedSymbol>, symbol: SymbolId) -> Seq<char> {
    if symbols.contains_key(symbol) {
        symbols[symbol].name@
    } else {
        "<unknown>"@
    }
}

/// A diagnostic about a recoverable eventual created at `created`, reported
/// at `site` when known and else where it was created; it also points at
/// the creation when that is elsewhere.
pub open spec fn eventual_error(
    message: Seq<char>,
    created: Option<SyntaxOriginView>,
    site: Option<SyntaxOriginView>,
) -> TypecheckErrorView {
    TypecheckErrorView {
        kind: TypecheckErrorKind::InvalidInput,
        message,
        origin: match site {
            Some(s) => Some(s),
            None => created,
        },
        related: match (site, created) {
            (Some(s), Some(c)) => if s != c {
                seq![(c, "recoverable eventual created here"@)]
            } else {
                seq![]
            },
            _ => seq![],
        },
    }
}

/// The message for an unhandled recoverable eventual named `name` when
/// control reaches `boundary`.
pub open spec fn exit_message(name: Seq<char>, boundary: Seq<char>) -> Seq<char> {
    "recoverable eventual binding '"@ + name
        + "' must be awaited and handled with '||' or check(...) before "@ + boundary
}

/// Reporting the first obligation from position `i` of `entries` on that
/// satisfies `p`, if any.
pub open spec fn exit_outcome(
    symbols: Map<SymbolId, ResolvedSymbol>,
    entries: Seq<(SymbolId, RecoverableEventualObligation)>,
    p: spec_fn(RecoverableEventualObligation) -> bool,
    exit_origin: Option<SyntaxOriginView>,
    boundary: Seq<char>,
    i: nat,
) -> Result<(), TypecheckErrorView>
    decreases entries.len() - i,
{
    if i >= entries.len() {
        Ok(())
    } else if p(entries[i as int].1) {
        Err(
            eventual_error(
                exit_message(symbol_name(symbols, entries[i as int].0), boundary),
                origin_view(entries[i as int].1.origin),
                exit_origin,
            ),
        )
    } else {
        exit_outcome(symbols, entries, p, exit_origin, boundary, i + 1)
    }
}

/// The diagnostic with `message` about a recoverable eventual created at
/// `created`, reported at `site` when known.
fn eventual_diagnostic(message: &str, created: &Option<SyntaxOrigin>, site: Option<SyntaxOrigin>) -> (r:
    TypecheckError)
    ensures
        r@ == eventual_error(message@, origin_view(*created), origin_view(site)),
{
    let primary = match &site {
        Some(s) => Some(s.copy()),
        None => copy_origin(created),
    };
    let error = TypecheckError::at(TypecheckErrorKind::InvalidInput, message, primary);
    match (&site, created) {
        (Some(s), Some(c)) => {
            if !s.same_as(c) {
                let r = error.with_related_origin(c.copy(), "recoverable eventual created here");
                proof {
                    assert(r@.related =~= seq![(c@, "recoverable eventual created here"@)]);
                }
                r
            } else {
                error
            }
        },
        _ => error,
    }
}

/// The name resolution gives `symbol`, or a placeholder.
fn name_of<'a>(resolved: &'a Resolution, symbol: SymbolId) -> (r: &'a str)
    ensures
        r@ == symbol_name(resolved.symbols.as_map(), symbol),
{
    match resolved.symbol(symbol) {
        Some(s) => s.name.as_str(),
        None => "<unknown>",
    }
}

/// Refuses to reach `boundary` while an obligation `predicate` picks is
/// outstanding: the first such, by binding, is reported at `exit_origin`
/// when known. `p` states what `predicate` decides.
fn recoverable_eventual_exit_error(
    typed: &TypedProgram,
    resolved: &Resolution,
    predicate: impl Fn(&RecoverableEventualObligation) -> bool,
    Ghost(p): Ghost<spec_fn(RecoverableEventualObligation) -> bool>,
    exit_origin: Option<SyntaxOrigin>,
    boundary: &str,
) -> (r: Result<(), TypecheckError>)
    requires
        forall|o: &RecoverableEventualObligation, b: bool|
            #[trigger] predicate.ensures((o,), b) ==> b == p(*o),
        forall|j: int|
            0 <= j < typed.obligation_entries().len() && (forall|i: int|
                0 <= i < j ==> !p(#[trigger] typed.obligation_entries()[i].1)) ==> predicate.requires(
                (&typed.obligation_entries()[j].1,),
            ),
    ensures
        result_view(r) == exit_outcome(
            resolved.symbols.as_map(),
            typed.obligation_entries(),
            p,
            origin_view(exit_origin),
            boundary@,
            0,
        ),
{
    let ghost e = typed.obligation_entries();
    let ghost target = exit_outcome(
        resolved.symbols.as_map(),
        e,
        p,
        origin_view(exit_origin),
        boundary@,
        0,
    );
    let obligations = typed.recoverable_eventual_obligations();
    let mut i: usize = 0;
    while i < obligations.len()
        invariant
            e == typed.obligation_entries(),
            obligations@.len() == e.len(),
            forall|k: int|
                0 <= k < obligations@.len() ==> (#[trigger] obligations@[k]).0 == e[k].0
                    && *obligations@[k].1 == e[k].1,
            i <= e.len(),
            forall|k: int| 0 <= k < i ==> !p(#[trigger] e[k].1),
            forall|o: &RecoverableEventualObligation, b: bool|
                #[trigger] predicate.ensures((o,), b) ==> b == p(*o),
            forall|j: int|
                0 <= j < e.len() && (forall|k: int| 0 <= k < j ==> !p(#[trigger] e[k].1))
                    ==> predicate.requires((&e[j].1,)),
            target == exit_outcome(
                resolved.symbols.as_map(),
                e,
                p,
                origin_view(exit_origin),
                boundary@,
                0,
            ),
            target == exit_outcome(
                resolved.symbols.as_map(),
                e,
                p,
                origin_view(exit_origin),
                boundary@,
                i as nat,
            ),
        decreases e.len() - i,
    {
        let (symbol, obligation) = obligations[i];
        proof {
            assert(obligations@[i as int].0 == e[i as int].0);
        }
        let hit = predicate(obligation);
        if hit {
            let mut message = owned("recoverable eventual binding '");
            push_text(&mut message, name_of(resolved, symbol));
            push_text(
                &mut message,
                "' must be awaited and handled with '||' or check(...) before ",
            );
            push_text(&mut message, boundary);
            let error = eventual_diagnostic(message.as_str(), &obligation.origin, exit_origin);
            return Err(error);
        }
        i = i + 1;
    }
    Ok(())
}

/// The obligations owned by `scope`.
pub open spec fn owned_by(scope: ScopeId) -> spec_fn(RecoverableEventualObligation) -> bool {
    |o: RecoverableEventualObligation| o.owner_scope == scope
}

/// Refuses to leave `scope` while it owns an unhandled recoverable
/// eventual; the first, by binding, is reported.
pub fn reject_recoverable_eventuals_in_scope(
    typed: &TypedProgram,
    resolved: &Resolution,
    scope: ScopeId,
) -> (r: Result<(), TypecheckError>)
    ensures
        result_view(r) == exit_outcome(
            resolved.symbols.as_map(),
            typed.obligation_entries(),
            owned_by(scope),
            None,
            "leaving its lexical scope"@,
            0,
        ),
{
    recoverable_eventual_exit_error(
        typed,
        resolved,
        (|o: &RecoverableEventualObligation| -> (b: bool)
            ensures
                b == (o.owner_scope == scope),
            { o.owner_scope.0 == scope.0 }),
        Ghost(owned_by(scope)),
        None,
        "leaving its lexical scope",
    )
}

/// The obligations whose owning scope lies in the routine `routine`.
pub open spec fn in_routine(scopes: Map<ScopeId, ResolvedScope>, routine: Option<ScopeId>) -> spec_fn(
    RecoverableEventualObligation,
) -> bool {
    |o: RecoverableEventualObligation| nearest_routine(scopes, o.owner_scope) == routine
}

/// Whether two optional scopes are the same.
fn same_scope(a: Option<ScopeId>, b: Option<ScopeId>) -> (r: bool)
    ensures
        r == (a == b),
{
    match (a, b) {
        (Some(x), Some(y)) => x.0 == y.0,
        (None, None) => true,
        _ => false,
    }
}

/// Refuses to leave the routine around `current_scope` at `boundary` while
/// an unhandled recoverable eventual of that routine is outstanding.
pub fn reject_all_recoverable_eventuals(
    typed: &TypedProgram,
    resolved: &Resolution,
    current_scope: ScopeId,
    exit_origin: Option<SyntaxOrigin>,
    boundary: &str,
) -> (r: Result<(), TypecheckError>)
    requires
        routine_search_ends(resolved.scopes.as_map(), current_scope),
        forall|j: int|
            0 <= j < typed.obligation_entries().len() && (forall|i: int|
                0 <= i < j ==> nearest_routine(
                    resolved.scopes.as_map(),
                    (#[trigger] typed.obligation_entries()[i]).1.owner_scope,
                ) != nearest_routine(resolved.scopes.as_map(), current_scope)) ==> routine_search_ends(
                resolved.scopes.as_map(),
                typed.obligation_entries()[j].1.owner_scope,
            ),
    ensures
        result_view(r) == exit_outcome(
            resolved.symbols.as_map(),
            typed.obligation_entries(),
            in_routine(
                resolved.scopes.as_map(),
                nearest_routine(resolved.scopes.as_map(), current_scope),
            ),
            origin_view(exit_origin),
            boundary@,
            0,
        ),
{
    let current_routine = nearest_routine_scope(resolved, current_scope);
    let ghost p = in_routine(resolved.scopes.as_map(), current_routine);
    proof {
        let e = typed.obligation_entries();
        assert forall|j: int|
            0 <= j < e.len() && (forall|i: int| 0 <= i < j ==> !p(#[trigger] e[i].1))
                implies routine_search_ends(resolved.scopes.as_map(), e[j].1.owner_scope) by {
            assert forall|i: int| 0 <= i < j implies nearest_routine(
                resolved.scopes.as_map(),
                (#[trigger] e[i]).1.owner_scope,
            ) != nearest_routine(resolved.scopes.as_map(), current_scope) by {
                assert(!p(e[i].1));
            }
        }
    }
    recoverable_eventual_exit_error(
        typed,
        resolved,
        (|o: &RecoverableEventualObligation| -> (b: bool)
            requires
                routine_search_ends(resolved.scopes.as_map(), o.owner_scope),
            ensures
                b == (nearest_routine(resolved.scopes.as_map(), o.owner_scope) == current_routine),
            { same_scope(nearest_routine_scope(resolved, o.owner_scope), current_routine) }),
        Ghost(p),
        exit_origin,
        boundary,
    )
}

/// The obligations activated in `ancestor` or a scope inside it.
pub open spec fn activated_within(scopes: Map<ScopeId, ResolvedScope>, ancestor: ScopeId) -> spec_fn(
    RecoverableEventualObligation,
) -> bool {
    |o: RecoverableEventualObligation| is_ancestor(scopes, ancestor, o.activation_scope)
}

/// Refuses to leave `ancestor` at `boundary` while an unhandled recoverable
/// eventual activated inside it is outstanding.
pub fn reject_recoverable_eventuals_leaving_scope(
    typed: &TypedProgram,
    resolved: &Resolution,
    ancestor: ScopeId,
    exit_origin: Option<SyntaxOrigin>,
    boundary: &str,
) -> (r: Result<(), TypecheckError>)
    requires
        forall|j: int|
            0 <= j < typed.obligation_entries().len() && (forall|i: int|
                0 <= i < j ==> !is_ancestor(
                    resolved.scopes.as_map(),
                    ancestor,
                    (#[trigger] typed.obligation_entries()[i]).1.activation_scope,
                )) ==> ancestor_search_ends(
                resolved.scopes.as_map(),
                typed.obligation_entries()[j].1.activation_scope,
                ancestor,
            ),
    ensures
        result_view(r) == exit_outcome(
            resolved.symbols.as_map(),
            typed.obligation_entries(),
            activated_within(resolved.scopes.as_map(), ancestor),
            origin_view(exit_origin),
            boundary@,
            0,
        ),
{
    let ghost p = activated_within(resolved.scopes.as_map(), ancestor);
    proof {
        let e = typed.obligation_entries();
        assert forall|j: int|
            0 <= j < e.len() && (forall|i: int| 0 <= i < j ==> !p(#[trigger] e[i].1))
                implies ancestor_search_ends(
                resolved.scopes.as_map(),
                e[j].1.activation_scope,
                ancestor,
            ) by {
            assert forall|i: int| 0 <= i < j implies !is_ancestor(
                resolved.scopes.as_map(),
                ancestor,
                (#[trigger] e[i]).1.activation_scope,
            ) by {
                assert(!p(e[i].1));
            }
        }
    }
    recoverable_eventual_exit_error(
        typed,
        resolved,
        (|o: &RecoverableEventualObligation| -> (b: bool)
            requires
                ancestor_search_ends(resolved.scopes.as_map(), o.activation_scope, ancestor),
            ensures
                b == is_ancestor(resolved.scopes.as_map(), ancestor, o.activation_scope),
            { scope_descends_from(resolved, o.activation_scope, ancestor) }),
        Ghost(p),
        exit_origin,
        boundary,
    )
}

/// The message for overwriting the unhandled recoverable eventual named
/// `name`.
pub open spec fn overwrite_message(name: Seq<char>) -> Seq<char> {
    "recoverable eventual binding '"@ + name
        + "' cannot be overwritten before it is awaited and handled with '||' or check(...)"@
}

/// Refuses to overwrite `symbol` while it holds an unhandled recoverable
/// eventual, reporting at `overwrite_origin` when known.
pub fn reject_recoverable_eventual_overwrite(
    typed: &TypedProgram,
    resolved: &Resolution,
    symbol: SymbolId,
    overwrite_origin: Option<SyntaxOrigin>,
) -> (r: Result<(), TypecheckError>)
    ensures
        result_view(r) == if typed.ownership().obligations.contains_key(symbol) {
            Err(
                eventual_error(
                    overwrite_message(symbol_name(resolved.symbols.as_map(), symbol)),
                    typed.ownership().obligations[symbol].origin,
                    origin_view(overwrite_origin),
                ),
            )
        } else {
            Ok(())
        },
{
    let obligation = match typed.recoverable_eventual_obligation(symbol) {
        Some(o) => o,
        None => {
            return Ok(());
        },
    };
    let mut message = owned("recoverable eventual binding '");
    push_text(&mut message, name_of(resolved, symbol));
    push_text(
        &mut message,
        "' cannot be overwritten before it is awaited and handled with '||' or check(...)",
    );
    Err(eventual_diagnostic(message.as_str(), &obligation.origin, overwrite_origin))
}

/// The diagnostic for moving the binding named `name` after a deferred
/// block registered a read of it: at the move, pointing at the read too.
pub open spec fn deferred_transfer_error(
    name: Seq<char>,
    conflict: DeferredTransferConflictView,
) -> TypecheckErrorView {
    TypecheckErrorView {
        kind: TypecheckErrorKind::Ownership,
        message: "move-only binding '"@ + name
            + "' cannot be transferred after it is referenced by a dfr/edf body in the same lexical scope"@,
        origin: Some(conflict.transfer_origin),
        related: seq![(conflict.deferred_origin, "deferred use registered here"@)],
    }
}

/// Hands out the diagnostic for the recorded deferred-transfer conflict,
/// if any, and forgets the conflict.
pub fn take_deferred_transfer_error(typed: &mut TypedProgram, resolved: &Resolution) -> (r: Option<
    TypecheckError,
>)
    ensures
        match old(typed).ownership().conflict {
            Some(c) => r matches Some(e) && e@ == deferred_transfer_error(
                symbol_name(resolved.symbols.as_map(), c.symbol),
                c,
            ),
            None => r is None,
        },
        final(typed).ownership() == (OwnershipView { conflict: None, ..old(typed).ownership() }),
        final(typed).facts() == old(typed).facts(),
        final(typed).symbol_facts() == old(typed).symbol_facts(),
{
    let conflict = match typed.take_deferred_transfer_conflict() {
        Some(c) => c,
        None => {
            return None;
        },
    };
    let mut message = owned("move-only binding '");
    push_text(&mut message, name_of(resolved, conflict.symbol));
    push_text(
        &mut message,
        "' cannot be transferred after it is referenced by a dfr/edf body in the same lexical scope",
    );
    let error = TypecheckError::with_origin(
        TypecheckErrorKind::Ownership,
        message.as_str(),
        conflict.transfer_origin,
    );
    let error = error.with_related_origin(conflict.deferred_origin, "deferred use registered here");
    proof {
        assert(error@.related =~= seq![(conflict.deferred_origin@, "deferred use registered here"@)]);
    }
    Some(error)
}

/// Whether the binding `symbol` is declared inside a routine body.
pub open spec fn declared_in_routine(
    symbols: Map<SymbolId, ResolvedSymbol>,
    scopes: Map<ScopeId, ResolvedScope>,
    symbol: SymbolId,
) -> bool {
    symbols.contains_key(symbol) && nearest_routine(scopes, symbols[symbol].scope) is Some
}

/// What a top-level binding of type `type_id` comes to: a full channel, a
/// `fin` type, a move-only value, a borrow or a non-thread-safe shared
/// pointer cannot live in global storage.
pub open spec fn top_level_binding_outcome(
    facts: FactsView,
    symbols: Map<SymbolId, TypedSymbol>,
    type_id: CheckedTypeId,
    origin: Option<SyntaxOriginView>,
) -> Result<(), TypecheckErrorView> {
    match apparent_outcome(facts, symbols, type_id) {
        Err(_) => Err(cycle_error()),
        Ok(a) => if type_at(facts, a) matches Some(CheckedTypeView::Channel { .. }) {
            Err(
                error_at(
                    TypecheckErrorKind::Unsupported,
                    "top-level channel bindings are not supported in V3; declare the channel inside its receiving routine"@,
                    origin,
                ),
            )
        } else if reaches(TypeQuery::Fin, facts, symbols, type_id, true, Set::empty()) {
            Err(
                error_at(
                    TypecheckErrorKind::Unsupported,
                    "top-level bindings of a 'fin' type are forbidden in V3; a finalized value must be owned by a routine scope, not global storage"@,
                    origin,
                ),
            )
        } else if reaches(TypeQuery::Moves, facts, symbols, type_id, true, Set::empty()) {
            Err(
                error_at(
                    TypecheckErrorKind::Unsupported,
                    "top-level move-only bindings are not supported in V3; global loads cannot transfer unique ownership, so declare the value inside a routine"@,
                    origin,
                ),
            )
        } else if reaches(TypeQuery::Borrowed, facts, symbols, type_id, true, Set::empty()) {
            Err(
                error_at(
                    TypecheckErrorKind::Unsupported,
                    "top-level bindings containing borrowed values are not supported in V3; global storage cannot preserve lexical borrow lifetimes"@,
                    origin,
                ),
            )
        } else if reaches(TypeQuery::SharedPointer, facts, symbols, type_id, true, Set::empty()) {
            Err(
                error_at(
                    TypecheckErrorKind::Unsupported,
                    "top-level bindings containing ptr[shared, T] are not supported in V3; Rc-backed values are not thread-safe global storage"@,
                    origin,
                ),
            )
        } else {
            Ok(())
        },
    }
}

/// Refuses a binding of type `type_id` declared outside every routine
/// whose value cannot live in global storage.
pub fn reject_unsupported_top_level_binding_type(
    typed: &TypedProgram,
    resolved: &Resolution,
    symbol: SymbolId,
    type_id: CheckedTypeId,
    origin: Option<SyntaxOrigin>,
) -> (r: Result<(), TypecheckError>)
    requires
        resolved.symbols.as_map().contains_key(symbol) ==> routine_search_ends(
            resolved.scopes.as_map(),
            resolved.symbols.as_map()[symbol].scope,
        ),
        !declared_in_routine(resolved.symbols.as_map(), resolved.scopes.as_map(), symbol)
            ==> apparent_resolves(typed.facts(), typed.symbol_facts(), type_id),
    ensures
        result_view(r) == if declared_in_routine(
            resolved.symbols.as_map(),
            resolved.scopes.as_map(),
            symbol,
        ) {
            Ok(())
        } else {
            top_level_binding_outcome(
                typed.facts(),
                typed.symbol_facts(),
                type_id,
                origin_view(origin),
            )
        },
{
    let in_routine = match resolved.symbol(symbol) {
        Some(s) => match nearest_routine_scope(resolved, s.scope) {
            Some(_) => true,
            None => false,
        },
        None => false,
    };
    if in_routine {
        return Ok(());
    }
    let apparent = match apparent_type_id(typed, type_id) {
        Ok(a) => a,
        Err(e) => {
            return Err(e);
        },
    };
    match typed.type_table().get(apparent) {
        Some(CheckedType::Channel { .. }) => {
            return Err(
                TypecheckError::at(
                    TypecheckErrorKind::Unsupported,
                    "top-level channel bindings are not supported in V3; declare the channel inside its receiving routine",
                    origin,
                ),
            );
        },
        _ => {},
    }
    let message = if type_contains_fin(typed, type_id) {
        "top-level bindings of a 'fin' type are forbidden in V3; a finalized value must be owned by a routine scope, not global storage"
    } else if ownership_moves_on_transfer(typed, type_id) {
        "top-level move-only bindings are not supported in V3; global loads cannot transfer unique ownership, so declare the value inside a routine"
    } else if type_contains_borrowed(typed, type_id) {
        "top-level bindings containing borrowed values are not supported in V3; global storage cannot preserve lexical borrow lifetimes"
    } else if type_contains_shared_pointer(typed, type_id) {
        "top-level bindings containing ptr[shared, T] are not supported in V3; Rc-backed values are not thread-safe global storage"
    } else {
        return Ok(());
    };
    Err(TypecheckError::at(TypecheckErrorKind::Unsupported, message, origin))
}

/// The symbol `name` resolves to from `scope` as the first of `kinds`, in
/// order, that it resolves to at all.
pub open spec fn lookup_first_kind(
    resolved: &Resolution,
    source_unit: SourceUnitId,
    scope: ScopeId,
    name: Seq<char>,
    kinds: Seq<SymbolKind>,
) -> Option<SymbolId>
    decreases kinds.len(),
{
    if kinds.len() == 0 {
        None
    } else {
        match chain_lookup(
            resolved.scopes.as_map(),
            resolved.symbols.entries(),
            source_unit,
            scope,
            name,
            kinds[0],
        ) {
            Some(id) => Some(id),
            None => lookup_first_kind(resolved, source_unit, scope, name, kinds.drop_first()),
        }
    }
}

/// Every lookup tried for the first of `kinds` that resolves ends.
pub open spec fn kind_lookups_end(
    resolved: &Resolution,
    source_unit: SourceUnitId,
    scope: ScopeId,
    name: Seq<char>,
    kinds: Seq<SymbolKind>,
) -> bool
    decreases kinds.len(),
{
    kinds.len() == 0 || {
        &&& lookup_ends(
            resolved.scopes.as_map(),
            resolved.symbols.entries(),
            source_unit,
            scope,
            name,
            kinds[0],
        )
        &&& (chain_lookup(
            resolved.scopes.as_map(),
            resolved.symbols.entries(),
            source_unit,
            scope,
            name,
            kinds[0],
        ) is None ==> kind_lookups_end(resolved, source_unit, scope, name, kinds.drop_first()))
    }
}

/// Looks `name` up from `scope_id` as each of `kinds` in turn, keeping the
/// first that resolves.
pub(crate) fn find_first_kind(
    resolved: &Resolution,
    source_unit_id: SourceUnitId,
    scope_id: ScopeId,
    name: &str,
    kinds: &[SymbolKind],
) -> (r: Option<SymbolId>)
    requires
        kind_lookups_end(resolved, source_unit_id, scope_id, name@, kinds@),
    ensures
        r == lookup_first_kind(resolved, source_unit_id, scope_id, name@, kinds@),
{
    let ghost target = lookup_first_kind(resolved, source_unit_id, scope_id, name@, kinds@);
    let mut i: usize = 0;
    proof {
        assert(kinds@.skip(0) =~= kinds@);
    }
    while i < kinds.len()
        invariant
            i <= kinds@.len(),
            target == lookup_first_kind(resolved, source_unit_id, scope_id, name@, kinds@),
            target == lookup_first_kind(resolved, source_unit_id, scope_id, name@, kinds@.skip(i as int)),
            kind_lookups_end(resolved, source_unit_id, scope_id, name@, kinds@.skip(i as int)),
        decreases kinds@.len() - i,
    {
        proof {
            assert(kinds@.skip(i as int)[0] == kinds@[i as int]);
            assert(kinds@.skip(i as int).drop_first() =~= kinds@.skip(i + 1));
        }
        match find_symbol_in_scope_chain(resolved, source_unit_id, scope_id, name, kinds[i]) {
            Some(found) => {
                return Some(found);
            },
            None => {},
        }
        i = i + 1;
    }
    None
}

/// The kinds a reassignment target may be declared as.
pub open spec fn reassignable_kinds() -> Seq<SymbolKind> {
    seq![SymbolKind::ValueBinding, SymbolKind::LabelBinding]
}

/// The kinds a binding assigned through may be declared as.
pub open spec fn assignable_kinds() -> Seq<SymbolKind> {
    seq![SymbolKind::ValueBinding, SymbolKind::LabelBinding, SymbolKind::Parameter]
}

/// Refuses to reassign the value or label binding `name` seen from
/// `scope_id` when it is known to be immutable.
pub fn ensure_binding_reassignable(
    typed: &TypedProgram,
    resolved: &Resolution,
    source_unit_id: SourceUnitId,
    scope_id: ScopeId,
    name: &str,
) -> (r: Result<(), TypecheckError>)
    requires
        kind_lookups_end(resolved, source_unit_id, scope_id, name@, reassignable_kinds()),
    ensures
        result_view(r) == match lookup_first_kind(
            resolved,
            source_unit_id,
            scope_id,
            name@,
            reassignable_kinds(),
        ) {
            Some(id) => if typed.symbol_facts().contains_key(id)
                && !typed.symbol_facts()[id].is_mutable {
                Err(
                    error_at(
                        TypecheckErrorKind::InvalidInput,
                        "cannot reassign immutable binding '"@ + name@ + "'"@,
                        None,
                    ),
                )
            } else {
                Ok(())
            },
            None => Ok(()),
        },
{
    let kinds = [SymbolKind::ValueBinding, SymbolKind::LabelBinding];
    proof {
        assert(kinds@ =~= reassignable_kinds());
    }
    let known_immutable = match find_first_kind(resolved, source_unit_id, scope_id, name, &kinds) {
        Some(id) => match typed.typed_symbol(id) {
            Some(symbol) => !symbol.is_mutable,
            None => false,
        },
        None => false,
    };
    if known_immutable {
        let mut message = owned("cannot reassign immutable binding '");
        push_text(&mut message, name);
        push_text(&mut message, "'");
        return Err(TypecheckError::new(TypecheckErrorKind::InvalidInput, message.as_str()));
    }
    Ok(())
}

/// Whether the value, label or parameter binding `name` seen from
/// `scope_id` may be assigned through: it is declared mutable or as a
/// mutex, or it is a mutable loan.
pub fn binding_is_mutable_by_name(
    typed: &TypedProgram,
    resolved: &Resolution,
    source_unit_id: SourceUnitId,
    scope_id: ScopeId,
    name: &str,
) -> (r: bool)
    requires
        kind_lookups_end(resolved, source_unit_id, scope_id, name@, assignable_kinds()),
    ensures
        r == match lookup_first_kind(resolved, source_unit_id, scope_id, name@, assignable_kinds()) {
            Some(id) => allows_mutable_borrow(typed.facts(), typed.symbol_facts(), id),
            None => false,
        },
{
    let kinds = [SymbolKind::ValueBinding, SymbolKind::LabelBinding, SymbolKind::Parameter];
    proof {
        assert(kinds@ =~= assignable_kinds());
    }
    match find_first_kind(resolved, source_unit_id, scope_id, name, &kinds) {
        Some(id) => symbol_allows_mutable_borrow(typed, id),
        None => false,
    }
}

/// Records `type_id` as the declared type of the binding `name` of kind
/// `kind` seen from `scope_id`; a binding the checker cannot find is an
/// internal error.
pub fn record_symbol_type(
    typed: &mut TypedProgram,
    resolved: &Resolution,
    source_unit_id: SourceUnitId,
    scope_id: ScopeId,
    name: &str,
    kind: SymbolKind,
    type_id: CheckedTypeId,
) -> (r: Result<(), TypecheckError>)
    requires
        lookup_ends(
            resolved.scopes.as_map(),
            resolved.symbols.entries(),
            source_unit_id,
            scope_id,
            name@,
            kind,
        ),
    ensures
        match chain_lookup(
            resolved.scopes.as_map(),
            resolved.symbols.entries(),
            source_unit_id,
            scope_id,
            name@,
            kind,
        ) {
            Some(id) => if old(typed).symbol_facts().contains_key(id) {
                r is Ok && final(typed).symbol_facts() == old(typed).symbol_facts().insert(
                    id,
                    TypedSymbol { declared_type: Some(type_id), ..old(typed).symbol_facts()[id] },
                )
            } else {
                result_view(r) == Err::<(), TypecheckErrorView>(lost_symbol_error(name@))
                    && final(typed).symbol_facts() == old(typed).symbol_facts()
            },
            None => result_view(r) == Err::<(), TypecheckErrorView>(lost_symbol_error(name@))
                && final(typed).symbol_facts() == old(typed).symbol_facts(),
        },
        final(typed).facts() == old(typed).facts(),
        final(typed).ownership() == old(typed).ownership(),
{
    let id = match find_symbol_in_scope_chain(resolved, source_unit_id, scope_id, name, kind) {
        Some(id) => id,
        None => {
            return Err(lost_symbol(name));
        },
    };
    if typed.set_declared_type(id, type_id) {
        Ok(())
    } else {
        Err(lost_symbol(name))
    }
}

/// The internal error for a binding `name` the checker lost track of.
pub open spec fn lost_symbol_error(name: Seq<char>) -> TypecheckErrorView {
    error_at(
        TypecheckErrorKind::Internal,
        "typed symbol facts lost local symbol '"@ + name + "'"@,
        None,
    )
}

/// The internal error for a binding `name` the checker lost track of.
fn lost_symbol(name: &str) -> (r: TypecheckError)
    ensures
        r@ == lost_symbol_error(name@),
{
    let mut message = owned("typed symbol facts lost local symbol '");
    push_text(&mut message, name);
    push_text(&mut message, "'");
    internal_error(message.as_str(), None)
}

/// The position a symbol diagnostic falls back to: the start of the
/// program.
pub open spec fn program_start() -> SyntaxOriginView {
    SyntaxOriginView { file: None, line: 1, column: 1, length: 1 }
}

/// `origin`, or the start of the program.
pub open spec fn origin_or_start(origin: Option<SyntaxOrigin>) -> SyntaxOriginView {
    match origin {
        Some(o) => o@,
        None => program_start(),
    }
}

/// What the type of `symbol_id` comes to: its declared type; else, for a
/// symbol mounted from another package, a diagnostic that it needs the
/// workspace; for a binding, one that it needs a type; and otherwise one
/// that the symbol has no type yet.
pub open spec fn symbol_type_outcome(
    symbols: Map<SymbolId, TypedSymbol>,
    resolved_symbols: Map<SymbolId, ResolvedSymbol>,
    symbol_id: SymbolId,
    origin: Option<SyntaxOrigin>,
) -> Result<CheckedTypeId, TypecheckErrorView> {
    if symbols.contains_key(symbol_id) && symbols[symbol_id].declared_type is Some {
        Ok(symbols[symbol_id].declared_type->0)
    } else if resolved_symbols.contains_key(symbol_id) && resolved_symbols[symbol_id].mounted {
        Err(
            error_at(
                TypecheckErrorKind::Unsupported,
                "imported symbol '"@ + resolved_symbols[symbol_id].name@
                    + "' requires workspace-aware typechecking in V1; the legacy single-package path is not sufficient"@,
                Some(origin_or_start(origin)),
            ),
        )
    } else if resolved_symbols.contains_key(symbol_id) && {
        let kind = resolved_symbols[symbol_id].kind;
        kind == SymbolKind::ValueBinding || kind == SymbolKind::LabelBinding || kind
            == SymbolKind::DestructureBinding
    } {
        Err(
            error_at(
                TypecheckErrorKind::InvalidInput,
                "binding '"@ + resolved_symbols[symbol_id].name@
                    + "' needs a declared type or an inferable initializer in V1"@,
                Some(
                    match resolved_symbols[symbol_id].origin {
                        Some(o) => o@,
                        None => origin_or_start(origin),
                    },
                ),
            ),
        )
    } else {
        Err(
            error_at(
                TypecheckErrorKind::InvalidInput,
                "resolved symbol "@ + decimal_text(symbol_id.0 as nat)
                    + " does not have a lowered type yet"@,
                Some(origin_or_start(origin)),
            ),
        )
    }
}

/// `origin`, or the start of the program.
fn or_program_start(origin: &Option<SyntaxOrigin>) -> (r: SyntaxOrigin)
    ensures
        r@ == origin_or_start(*origin),
{
    match origin {
        Some(o) => o.copy(),
        None => SyntaxOrigin { file: None, line: 1, column: 1, length: 1 },
    }
}

/// The type of `symbol_id`, or why it has none.
pub fn symbol_type(
    typed: &TypedProgram,
    resolved: &Resolution,
    symbol_id: SymbolId,
    origin: Option<SyntaxOrigin>,
) -> (r: Result<CheckedTypeId, TypecheckError>)
    ensures
        result_view(r) == symbol_type_outcome(
            typed.symbol_facts(),
            resolved.symbols.as_map(),
            symbol_id,
            origin,
        ),
{
    match typed.typed_symbol(symbol_id) {
        Some(s) => match s.declared_type {
            Some(t) => {
                return Ok(t);
            },
            None => {},
        },
        None => {},
    }
    match resolved.symbol(symbol_id) {
        Some(symbol) => {
            if symbol.mounted {
                let mut message = owned("imported symbol '");
                push_text(&mut message, symbol.name.as_str());
                push_text(
                    &mut message,
                    "' requires workspace-aware typechecking in V1; the legacy single-package path is not sufficient",
                );
                return Err(
                    TypecheckError::with_origin(
                        TypecheckErrorKind::Unsupported,
                        message.as_str(),
                        or_program_start(&origin),
                    ),
                );
            }
            let binding = match symbol.kind {
                SymbolKind::ValueBinding => true,
                SymbolKind::LabelBinding => true,
                SymbolKind::DestructureBinding => true,
                _ => false,
            };
            if binding {
                let mut message = owned("binding '");
                push_text(&mut message, symbol.name.as_str());
                push_text(
                    &mut message,
                    "' needs a declared type or an inferable initializer in V1",
                );
                let at = match &symbol.origin {
                    Some(o) => o.copy(),
                    None => or_program_start(&origin),
                };
                return Err(
                    TypecheckError::with_origin(TypecheckErrorKind::InvalidInput, message.as_str(), at),
                );
            }
        },
        None => {},
    }
    let mut message = owned("resolved symbol ");
    let number = decimal(symbol_id.0 as u64);
    push_text(&mut message, number.as_str());
    push_text(&mut message, " does not have a lowered type yet");
    Err(
        TypecheckError::with_origin(
            TypecheckErrorKind::InvalidInput,
            message.as_str(),
            or_program_start(&origin),
        ),
    )
}

/// The signature of the routine `symbol_id`, or why it has none.
pub fn routine_signature_for_symbol<'a>(
    typed: &'a TypedProgram,
    resolved: &Resolution,
    symbol_id: SymbolId,
    origin: Option<SyntaxOrigin>,
) -> (r: Result<&'a RoutineType, TypecheckError>)
    ensures
        match symbol_type_outcome(typed.symbol_facts(), resolved.symbols.as_map(), symbol_id, origin) {
            Err(e) => result_view(r) == Err::<&RoutineType, TypecheckErrorView>(e),
            Ok(t) => match type_at(typed.facts(), t) {
                Some(CheckedTypeView::Routine(signature)) => r matches Ok(s) && s@ == signature,
                _ => result_view(r) == Err::<&RoutineType, TypecheckErrorView>(
                    error_at(
                        TypecheckErrorKind::InvalidInput,
                        "resolved routine symbol "@ + decimal_text(symbol_id.0 as nat)
                            + " is not callable"@,
                        Some(origin_or_start(origin)),
                    ),
                ),
            },
        },
{
    let origin_copy = match &origin {
        Some(o) => Some(o.copy()),
        None => None,
    };
    let type_id = match symbol_type(typed, resolved, symbol_id, origin_copy) {
        Ok(t) => t,
        Err(e) => {
            return Err(e);
        },
    };
    match typed.type_table().get(type_id) {
        Some(CheckedType::Routine(signature)) => Ok(signature),
        _ => {
            let mut message = owned("resolved routine symbol ");
            let number = decimal(symbol_id.0 as u64);
            push_text(&mut message, number.as_str());
            push_text(&mut message, " is not callable");
            Err(
                TypecheckError::with_origin(
                    TypecheckErrorKind::InvalidInput,
                    message.as_str(),
                    or_program_start(&origin),
                ),
            )
        },
    }
}

/// What typing the name use `reference_id` as a value comes to, given its
/// resolved symbol `symbol_id` has type `type_id`: a generic routine or
/// one with mutex parameters cannot be used as a plain value.
pub open spec fn routine_value_error(
    types: Seq<CheckedTypeView>,
    resolved_symbols: Map<SymbolId, ResolvedSymbol>,
    symbol_id: SymbolId,
    type_id: CheckedTypeId,
    origin: Option<SyntaxOrigin>,
) -> Option<TypecheckErrorView> {
    let name = if resolved_symbols.contains_key(symbol_id) {
        resolved_symbols[symbol_id].name@
    } else {
        "<routine>"@
    };
    if type_id.0 < types.len() {
        match types[type_id.0 as int] {
            CheckedTypeView::Routine(signature) => if signature.generic_params.len() > 0 {
                Some(
                    error_at(
                        TypecheckErrorKind::Unsupported,
                        "generic routine '"@ + name
                            + "' cannot be used as a plain routine value in V2 Milestone 1; call it directly instead"@,
                        Some(origin_or_start(origin)),
                    ),
                )
            } else if signature.mutex_params.len() > 0 {
                Some(
                    error_at(
                        TypecheckErrorKind::Unsupported,
                        "routine '"@ + name
                            + "' with [mux] parameters cannot be used as a plain routine value in V3; call it directly instead"@,
                        Some(origin_or_start(origin)),
                    ),
                )
            } else {
                None
            },
            _ => None,
        }
    } else {
        None
    }
}

/// The diagnostic with `message` and `kind` at `origin`, or at the start
/// of the program.
pub open spec fn error_or_start(
    kind: TypecheckErrorKind,
    message: Seq<char>,
    origin: Option<SyntaxOrigin>,
) -> TypecheckErrorView {
    error_at(kind, message, Some(origin_or_start(origin)))
}

/// What typing the name use `reference_id` as a value comes to, with the
/// facts it leaves: the use must have resolved to a symbol with a type; a
/// generic routine or one with mutex parameters is no plain value; the type
/// is recorded for the use.
pub open spec fn reference_typing(
    facts: FactsView,
    symbols: Map<SymbolId, TypedSymbol>,
    resolved: &Resolution,
    reference_id: ReferenceId,
    origin: Option<SyntaxOrigin>,
) -> (Result<TypedExpr, TypecheckErrorView>, FactsView) {
    let refs = resolved.references.as_map();
    if !refs.contains_key(reference_id) {
        (
            Err(
                error_or_start(
                    TypecheckErrorKind::InvalidInput,
                    "resolved reference disappeared before typechecking"@,
                    origin,
                ),
            ),
            facts,
        )
    } else if refs[reference_id].resolved is None {
        (
            Err(
                error_or_start(
                    TypecheckErrorKind::InvalidInput,
                    "resolved reference lost its target symbol"@,
                    origin,
                ),
            ),
            facts,
        )
    } else {
        let symbol_id = refs[reference_id].resolved->0;
        match symbol_type_outcome(symbols, resolved.symbols.as_map(), symbol_id, origin) {
            Err(e) => (Err(e), facts),
            Ok(type_id) => match routine_value_error(
                facts.types,
                resolved.symbols.as_map(),
                symbol_id,
                type_id,
                origin,
            ) {
                Some(e) => (Err(e), facts),
                None => {
                    if facts.references.contains_key(reference_id) {
                        (
                            Ok(TypedExpr { value_type: Some(type_id), recoverable_effect: None }),
                            FactsView {
                                references: facts.references.insert(
                                    reference_id,
                                    TypedReference {
                                        resolved_type: Some(type_id),
                                        ..facts.references[reference_id]
                                    },
                                ),
                                ..facts
                            },
                        )
                    } else {
                        (
                            Err(
                                error_or_start(
                                    TypecheckErrorKind::Internal,
                                    "typed reference table lost a resolved reference"@,
                                    origin,
                                ),
                            ),
                            facts,
                        )
                    }
                },
            },
        }
    }
}

/// Types the name use `reference_id` as a value of its symbol's type and
/// records that type for the use.
pub fn type_for_reference(
    typed: &mut TypedProgram,
    resolved: &Resolution,
    reference_id: ReferenceId,
    origin: Option<SyntaxOrigin>,
) -> (r: Result<TypedExpr, TypecheckError>)
    ensures
        final(typed).ownership() == old(typed).ownership(),
        final(typed).symbol_facts() == old(typed).symbol_facts(),
        (result_view(r), final(typed).facts()) == reference_typing(
            old(typed).facts(),
            old(typed).symbol_facts(),
            resolved,
            reference_id,
            origin,
        ),
        !resolved.references.as_map().contains_key(reference_id) ==> result_view(r) == Err::<
            TypedExpr,
            TypecheckErrorView,
        >(
            error_or_start(
                TypecheckErrorKind::InvalidInput,
                "resolved reference disappeared before typechecking"@,
                origin,
            ),
        ) && final(typed).facts() == old(typed).facts(),
        resolved.references.as_map().contains_key(reference_id)
            && resolved.references.as_map()[reference_id].resolved is None ==> result_view(r)
            == Err::<TypedExpr, TypecheckErrorView>(
            error_or_start(
                TypecheckErrorKind::InvalidInput,
                "resolved reference lost its target symbol"@,
                origin,
            ),
        ) && final(typed).facts() == old(typed).facts(),
        resolved.references.as_map().contains_key(reference_id)
            && resolved.references.as_map()[reference_id].resolved is Some ==> {
            let symbol_id = resolved.references.as_map()[reference_id].resolved->0;
            match symbol_type_outcome(
                old(typed).symbol_facts(),
                resolved.symbols.as_map(),
                symbol_id,
                origin,
            ) {
                Err(e) => result_view(r) == Err::<TypedExpr, TypecheckErrorView>(e) && final(typed).facts() == old(typed).facts(),
                Ok(type_id) => match routine_value_error(
                    old(typed).facts().types,
                    resolved.symbols.as_map(),
                    symbol_id,
                    type_id,
                    origin,
                ) {
                    Some(e) => result_view(r) == Err::<TypedExpr, TypecheckErrorView>(e) && final(typed).facts() == old(typed).facts(),
                    None => if old(typed).facts().references.contains_key(reference_id) {
                        r == Ok::<TypedExpr, TypecheckError>((TypedExpr { value_type: Some(type_id), recoverable_effect: None }))
                            && final(typed).facts() == (FactsView {
                            references: old(typed).facts().references.insert(
                                reference_id,
                                TypedReference {
                                    resolved_type: Some(type_id),
                                    ..old(typed).facts().references[reference_id]
                                },
                            ),
                            ..old(typed).facts()
                        })
                    } else {
                        result_view(r) == Err::<TypedExpr, TypecheckErrorView>(
                            error_or_start(
                                TypecheckErrorKind::Internal,
                                "typed reference table lost a resolved reference"@,
                                origin,
                            ),
                        ) && final(typed).facts() == old(typed).facts()
                    },
                },
            }
        },
{
    let symbol_id = match resolved.reference(reference_id) {
        Some(reference) => match reference.resolved {
            Some(s) => s,
            None => {
                return Err(
                    TypecheckError::with_origin(
                        TypecheckErrorKind::InvalidInput,
                        "resolved reference lost its target symbol",
                        or_program_start(&origin),
                    ),
                );
            },
        },
        None => {
            return Err(
                TypecheckError::with_origin(
                    TypecheckErrorKind::InvalidInput,
                    "resolved reference disappeared before typechecking",
                    or_program_start(&origin),
                ),
            );
        },
    };
    let type_id = match symbol_type(typed, resolved, symbol_id, copy_origin(&origin)) {
        Ok(t) => t,
        Err(e) => {
            return Err(e);
        },
    };
    match typed.type_table().get(type_id) {
        Some(CheckedType::Routine(signature)) => {
            let name = match resolved.symbol(symbol_id) {
                Some(s) => s.name.as_str(),
                None => "<routine>",
            };
            if signature.generic_params.len() > 0 {
                let mut message = owned("generic routine '");
                push_text(&mut message, name);
                push_text(
                    &mut message,
                    "' cannot be used as a plain routine value in V2 Milestone 1; call it directly instead",
                );
                return Err(
                    TypecheckError::with_origin(
                        TypecheckErrorKind::Unsupported,
                        message.as_str(),
                        or_program_start(&origin),
                    ),
                );
            }
            if signature.mutex_params.len() > 0 {
                let mut message = owned("routine '");
                push_text(&mut message, name);
                push_text(
                    &mut message,
                    "' with [mux] parameters cannot be used as a plain routine value in V3; call it directly instead",
                );
                return Err(
                    TypecheckError::with_origin(
                        TypecheckErrorKind::Unsupported,
                        message.as_str(),
                        or_program_start(&origin),
                    ),
                );
            }
        },
        _ => {},
    }
    if !typed.set_reference_type(reference_id, type_id) {
        return Err(
            TypecheckError::with_origin(
                TypecheckErrorKind::Internal,
                "typed reference table lost a resolved reference",
                or_program_start(&origin),
            ),
        );
    }
    Ok(TypedExpr::value(type_id))
}

/// The signature of the routine the call at name use `reference_id`
/// resolved to, or why there is none.
pub fn routine_signature_for_reference<'a>(
    typed: &'a TypedProgram,
    resolved: &Resolution,
    reference_id: ReferenceId,
    origin: Option<SyntaxOrigin>,
) -> (r: Result<&'a RoutineType, TypecheckError>)
    ensures
        !(resolved.references.as_map().contains_key(reference_id)
            && resolved.references.as_map()[reference_id].resolved is Some) ==> result_view(r)
            == Err::<&RoutineType, TypecheckErrorView>(
            error_or_start(
                TypecheckErrorKind::InvalidInput,
                "call reference lost its resolved routine symbol"@,
                origin,
            ),
        ),
        resolved.references.as_map().contains_key(reference_id)
            && resolved.references.as_map()[reference_id].resolved is Some ==> {
            let symbol_id = resolved.references.as_map()[reference_id].resolved->0;
            match symbol_type_outcome(typed.symbol_facts(), resolved.symbols.as_map(), symbol_id, origin) {
                Err(e) => result_view(r) == Err::<&RoutineType, TypecheckErrorView>(e),
                Ok(t) => match type_at(typed.facts(), t) {
                    Some(CheckedTypeView::Routine(signature)) => r matches Ok(s) && s@ == signature,
                    _ => result_view(r) == Err::<&RoutineType, TypecheckErrorView>(
                        error_or_start(
                            TypecheckErrorKind::InvalidInput,
                            "resolved routine symbol "@ + decimal_text(symbol_id.0 as nat)
                                + " is not callable"@,
                            origin,
                        ),
                    ),
                },
            }
        },
{
    let symbol_id = match resolved.reference(reference_id) {
        Some(reference) => match reference.resolved {
            Some(s) => Some(s),
            None => None,
        },
        None => None,
    };
    match symbol_id {
        Some(s) => routine_signature_for_symbol(typed, resolved, s, origin),
        None => Err(
            TypecheckError::with_origin(
                TypecheckErrorKind::InvalidInput,
                "call reference lost its resolved routine symbol",
                or_program_start(&origin),
            ),
        ),
    }
}

/// Searching from position `i` on reports exactly when some obligation
/// from there on satisfies `p`.
proof fn lemma_exit_outcome_from(
    symbols: Map<SymbolId, ResolvedSymbol>,
    entries: Seq<(SymbolId, RecoverableEventualObligation)>,
    p: spec_fn(RecoverableEventualObligation) -> bool,
    exit_origin: Option<SyntaxOriginView>,
    boundary: Seq<char>,
    i: nat,
)
    ensures
        exit_outcome(symbols, entries, p, exit_origin, boundary, i) is Err <==> exists|j: int|
            i <= j < entries.len() && p(#[trigger] entries[j].1),
    decreases entries.len() - i,
{
    if i < entries.len() {
        lemma_exit_outcome_from(symbols, entries, p, exit_origin, boundary, i + 1);
        if !p(entries[i as int].1) {
            assert forall|j: int| i <= j < entries.len() && p(#[trigger] entries[j].1) implies i + 1
                <= j by {
                if j == i {
                }
            }
        }
    }
}

/// Control may leave a scope or routine exactly when no outstanding
/// recoverable eventual that must be handled there is left: the exit is
/// refused if and only if one is.
pub proof fn law_exit_refused_iff_outstanding(
    symbols: Map<SymbolId, ResolvedSymbol>,
    entries: Seq<(SymbolId, RecoverableEventualObligation)>,
    p: spec_fn(RecoverableEventualObligation) -> bool,
    exit_origin: Option<SyntaxOriginView>,
    boundary: Seq<char>,
)
    ensures
        exit_outcome(symbols, entries, p, exit_origin, boundary, 0) is Err <==> exists|j: int|
            0 <= j < entries.len() && p(#[trigger] entries[j].1),
{
    lemma_exit_outcome_from(symbols, entries, p, exit_origin, boundary, 0);
}

/// A type recorded as a binding's declared type is the type the binding is
/// read as afterwards.
pub proof fn law_recorded_type_is_read_back(
    symbols: Map<SymbolId, TypedSymbol>,
    resolved_symbols: Map<SymbolId, ResolvedSymbol>,
    id: SymbolId,
    type_id: CheckedTypeId,
    origin: Option<SyntaxOrigin>,
)
    requires
        symbols.contains_key(id),
    ensures
        symbol_type_outcome(
            symbols.insert(id, TypedSymbol { declared_type: Some(type_id), ..symbols[id] }),
            resolved_symbols,
            id,
            origin,
        ) == Ok::<CheckedTypeId, TypecheckErrorView>(type_id),
{
}

/// The target of an assignment, as far as finding the binding it
/// overwrites reads it.
pub enum AssignTarget {
    /// A bare identifier, used at this syntax node.
    Identifier(SyntaxNodeId),
    /// A qualified identifier, with the syntax node of its path if known.
    Qualified(Option<SyntaxNodeId>),
    /// A field, an element, or any other place.
    Other,
}

/// The binding an assignment to `target` overwrites whole: the symbol a
/// bare or qualified identifier target resolved to.
pub open spec fn assigned_binding(resolution: &Resolution, target: AssignTarget) -> Option<SymbolId> {
    match target {
        AssignTarget::Identifier(id) => crate::resolution::resolved_use(
            resolution,
            id,
            crate::resolution::ReferenceKind::Identifier,
        ),
        AssignTarget::Qualified(Some(id)) => crate::resolution::resolved_use(
            resolution,
            id,
            crate::resolution::ReferenceKind::QualifiedIdentifier,
        ),
        _ => None,
    }
}

/// The binding an assignment to `target` overwrites whole, if any.
pub fn whole_binding_assignment_symbol(resolution: &Resolution, target: &AssignTarget) -> (r: Option<
    SymbolId,
>)
    ensures
        r == assigned_binding(resolution, *target),
{
    match target {
        AssignTarget::Identifier(id) => crate::resolution::resolve_use(
            resolution,
            *id,
            crate::resolution::ReferenceKind::Identifier,
        ),
        AssignTarget::Qualified(Some(id)) => crate::resolution::resolve_use(
            resolution,
            *id,
            crate::resolution::ReferenceKind::QualifiedIdentifier,
        ),
        _ => None,
    }
}

} // verus!
