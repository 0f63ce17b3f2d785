//! The bindings a deferred block (`dfr`/`edf`) reads from outside it: each
//! such read is registered, so that moving the binding before the block
//! runs is caught as a conflict.
use crate::errors::{TypecheckError, TypecheckErrorKind, TypecheckErrorView};
use crate::ids::{ScopeId, SymbolId, SyntaxNodeId};
use crate::model::{DeferredBindingUse, DeferredBindingUseView, TypedProgram};
use crate::ownership::OwnershipView;
use crate::resolution::{
    ancestor_search_ends, first_reference, find_reference_by_syntax, is_ancestor, origin_for,
    scope_is_same_or_ancestor, ReferenceKind, Resolution,
};
use vstd::prelude::*;

verus! {

/// The ownership state once a deferred block is recorded to read `symbol`
/// as `u`, unless that read is recorded already.
pub open spec fn with_deferred_use(o: OwnershipView, symbol: SymbolId, u: DeferredBindingUseView) -> OwnershipView {
    OwnershipView {
        deferred_uses: {
            let uses = if o.deferred_uses.contains_key(symbol) {
                o.deferred_uses[symbol]
            } else {
                Seq::empty()
            };
            if uses.contains(u) {
                o.deferred_uses.insert(symbol, uses)
            } else {
                o.deferred_uses.insert(symbol, uses.push(u))
            }
        },
        ..o
    }
}

/// An internal diagnostic about the identifier use at `syntax_id`.
pub open spec fn lost_use_error(resolution: &Resolution, syntax_id: SyntaxNodeId, message: Seq<char>) -> TypecheckErrorView {
    TypecheckErrorView {
        kind: TypecheckErrorKind::Internal,
        message,
        origin: if resolution.origins.as_map().contains_key(syntax_id) {
            Some(resolution.origins.as_map()[syntax_id]@)
        } else {
            None
        },
        related: seq![],
    }
}

/// Registering the identifier use at `syntax_id` in a deferred block
/// registered in `scope`: the use must have resolved to a recorded symbol;
/// a binding declared in `scope` or a scope enclosing it is read from
/// outside the block, and that read is recorded at the use's position.
pub open spec fn deferred_use_step(
    o: OwnershipView,
    resolution: &Resolution,
    scope: ScopeId,
    syntax_id: SyntaxNodeId,
) -> Result<OwnershipView, TypecheckErrorView> {
    match first_reference(resolution.references.entries(), syntax_id, ReferenceKind::Identifier, 0) {
        None => Err(
            lost_use_error(
                resolution,
                syntax_id,
                "dfr/edf identifier use lost its resolved reference"@,
            ),
        ),
        Some(id) => {
            let refs = resolution.references.as_map();
            if !refs.contains_key(id) || refs[id].resolved is None {
                Err(
                    lost_use_error(
                        resolution,
                        syntax_id,
                        "dfr/edf identifier use remained unresolved after successful typing"@,
                    ),
                )
            } else {
                let symbol = refs[id].resolved->Some_0;
                let symbols = resolution.symbols.as_map();
                if !symbols.contains_key(symbol) {
                    Err(
                        lost_use_error(
                            resolution,
                            syntax_id,
                            "dfr/edf identifier use lost its resolved symbol"@,
                        ),
                    )
                } else if !is_ancestor(resolution.scopes.as_map(), symbols[symbol].scope, scope) {
                    Ok(o)
                } else if !resolution.origins.as_map().contains_key(syntax_id) {
                    Err(
                        TypecheckErrorView {
                            kind: TypecheckErrorKind::Internal,
                            message: "dfr/edf identifier use lost its syntax origin"@,
                            origin: None,
                            related: seq![],
                        },
                    )
                } else {
                    Ok(
                        with_deferred_use(
                            o,
                            symbol,
                            DeferredBindingUseView {
                                scope,
                                origin: resolution.origins.as_map()[syntax_id]@,
                            },
                        ),
                    )
                }
            }
        },
    }
}

/// What registering the first `k` identifier uses of a deferred block
/// leaves: the ownership state so far, and the diagnostic that stopped the
/// registration, if any.
pub open spec fn deferred_uses_scan(
    o: OwnershipView,
    resolution: &Resolution,
    scope: ScopeId,
    uses: Seq<SyntaxNodeId>,
    k: nat,
) -> (OwnershipView, Option<TypecheckErrorView>)
    decreases k,
{
    if k == 0 {
        (o, None)
    } else {
        let (p, e) = deferred_uses_scan(o, resolution, scope, uses, (k - 1) as nat);
        if e is Some {
            (p, e)
        } else {
            match deferred_use_step(p, resolution, scope, uses[k - 1]) {
                Ok(q) => (q, None),
                Err(x) => (p, Some(x)),
            }
        }
    }
}

proof fn lemma_uses_stop(
    o: OwnershipView,
    resolution: &Resolution,
    scope: ScopeId,
    uses: Seq<SyntaxNodeId>,
    k: nat,
    m: nat,
)
    requires
        k <= m,
        deferred_uses_scan(o, resolution, scope, uses, k).1 is Some,
    ensures
        deferred_uses_scan(o, resolution, scope, uses, m) == deferred_uses_scan(
            o,
            resolution,
            scope,
            uses,
            k,
        ),
    decreases m - k,
{
    if k < m {
        lemma_uses_stop(o, resolution, scope, uses, k, (m - 1) as nat);
    }
}

/// Walking up from `scope` reaches any scope asked about or ends.
pub open spec fn walks_from_end(resolution: &Resolution, scope: ScopeId) -> bool {
    forall|a: ScopeId| #[trigger] ancestor_search_ends(resolution.scopes.as_map(), scope, a)
}

/// An internal diagnostic about the identifier use at `syntax_id`.
fn lost_use(resolution: &Resolution, syntax_id: SyntaxNodeId, message: &str) -> (r: TypecheckError)
    ensures
        r@ == lost_use_error(resolution, syntax_id, message@),
{
    crate::errors::internal_error(message, origin_for(resolution, syntax_id))
}

/// Registers, for a deferred block registered in `registration_scope`, the
/// identifier uses `uses` of its body, in the order the body is walked:
/// each read of a binding from outside the block is recorded.
pub fn register_deferred_outer_binding_uses(
    typed: &mut TypedProgram,
    resolution: &Resolution,
    registration_scope: ScopeId,
    uses: &Vec<SyntaxNodeId>,
) -> (r: Result<(), TypecheckError>)
    requires
        walks_from_end(resolution, registration_scope),
    ensures
        ({
            let (after, error) = deferred_uses_scan(
                old(typed).ownership(),
                resolution,
                registration_scope,
                uses@,
                uses@.len(),
            );
            &&& final(typed).ownership() == after
            &&& match error {
                Some(e) => r matches Err(x) && x@ == e,
                None => r is Ok,
            }
        }),
        final(typed).facts() == old(typed).facts(),
        final(typed).symbol_facts() == old(typed).symbol_facts(),
{
    let ghost o0 = typed.ownership();
    let ghost facts0 = typed.facts();
    let ghost symbols0 = typed.symbol_facts();
    let mut k: usize = 0;
    while k < uses.len()
        invariant
            k <= uses.len(),
            walks_from_end(resolution, registration_scope),
            o0 == old(typed).ownership(),
            facts0 == old(typed).facts(),
            symbols0 == old(typed).symbol_facts(),
            typed.facts() == facts0,
            typed.symbol_facts() == symbols0,
            deferred_uses_scan(o0, resolution, registration_scope, uses@, k as nat) == (
            typed.ownership(),
            None::<TypecheckErrorView>,
            ),
        decreases uses.len() - k,
    {
        let syntax_id = uses[k];
        let step = register_deferred_use(typed, resolution, registration_scope, syntax_id);
        match step {
            Ok(()) => {},
            Err(e) => {
                proof {
                    lemma_uses_stop(
                        o0,
                        resolution,
                        registration_scope,
                        uses@,
                        (k + 1) as nat,
                        uses.len() as nat,
                    );
                }
                return Err(e);
            },
        }
        k = k + 1;
    }
    Ok(())
}

/// Registers one identifier use of a deferred block.
fn register_deferred_use(
    typed: &mut TypedProgram,
    resolution: &Resolution,
    scope: ScopeId,
    syntax_id: SyntaxNodeId,
) -> (r: Result<(), TypecheckError>)
    requires
        walks_from_end(resolution, scope),
    ensures
        final(typed).facts() == old(typed).facts(),
        final(typed).symbol_facts() == old(typed).symbol_facts(),
        match deferred_use_step(old(typed).ownership(), resolution, scope, syntax_id) {
            Ok(q) => r is Ok && final(typed).ownership() == q,
            Err(e) => r matches Err(x) && x@ == e && final(typed).ownership() == old(typed).ownership(),
        },
{
    let id = match find_reference_by_syntax(resolution, syntax_id, ReferenceKind::Identifier, "") {
        Ok(id) => id,
        Err(_) => {
            return Err(lost_use(resolution, syntax_id, "dfr/edf identifier use lost its resolved reference"));
        },
    };
    let symbol = match resolution.reference(id) {
        Some(reference) => match reference.resolved {
            Some(s) => s,
            None => {
                return Err(
                    lost_use(
                        resolution,
                        syntax_id,
                        "dfr/edf identifier use remained unresolved after successful typing",
                    ),
                );
            },
        },
        None => {
            return Err(
                lost_use(
                    resolution,
                    syntax_id,
                    "dfr/edf identifier use remained unresolved after successful typing",
                ),
            );
        },
    };
    let declaration_scope = match resolution.symbol(symbol) {
        Some(d) => d.scope,
        None => {
            return Err(lost_use(resolution, syntax_id, "dfr/edf identifier use lost its resolved symbol"));
        },
    };
    proof {
        assert(ancestor_search_ends(resolution.scopes.as_map(), scope, declaration_scope));
    }
    if !scope_is_same_or_ancestor(resolution, declaration_scope, scope) {
        return Ok(());
    }
    let origin = match origin_for(resolution, syntax_id) {
        Some(o) => o,
        None => {
            return Err(crate::errors::internal_error("dfr/edf identifier use lost its syntax origin", None));
        },
    };
    typed.register_deferred_binding_use(symbol, DeferredBindingUse { scope, origin });
    Ok(())
}

} // verus!
