//! Rules applied when a binding is declared: what a declaration without an
//! initializer may not be, the obligation a recoverable eventual binding
//! takes on, and reborrowing from a loan.
use crate::apparent::{is_recoverable_eventual_type, result_view, type_at};
use crate::errors::{TypecheckError, TypecheckErrorKind, TypecheckErrorView};
use crate::ids::{ScopeId, SymbolId, SyntaxOrigin, SyntaxOriginView};
use crate::model::{ActiveBorrow, RecoverableEventualObligationView, TypedProgram, TypedSymbol};
use crate::ownership::OwnershipView;
use crate::rejections::{error_at, origin_view};
use crate::text::{owned, push_text};
use crate::resolution::Resolution;
use crate::types::{CheckedType, CheckedTypeId, CheckedTypeView};
use vstd::prelude::*;

verus! {

/// The diagnostic for declaring binding `name` without an initializer: a
/// borrow binding must name the owner it loans from, and a heap-owning
/// binding must be given the value to allocate; other bindings may wait.
pub open spec fn uninitialized_error(
    name: Seq<char>,
    borrowing: bool,
    heap_owned: bool,
) -> Option<Seq<char>> {
    if borrowing {
        Some(
            "borrow binding '"@ + name
                + "' requires an initializer; a 'var[bor]' declaration must identify the owner it loans from"@,
        )
    } else if heap_owned {
        Some(
            "heap-allocating binding '"@ + name
                + "' requires an initializer; '@var'/'[new]' must be given a value to move or clone into the allocation"@,
        )
    } else {
        None
    }
}

/// Refuses a borrow or heap-owning binding `name` declared without an
/// initializer, at the declaration's position when known.
pub fn reject_uninitialized_ownership_binding(
    name: &str,
    borrowing: bool,
    heap_owned: bool,
    binding_origin: Option<SyntaxOrigin>,
) -> (r: Result<(), TypecheckError>)
    ensures
        result_view(r) == match uninitialized_error(name@, borrowing, heap_owned) {
            Some(message) => Err(
                error_at(TypecheckErrorKind::Uninitialized, message, origin_view(binding_origin)),
            ),
            None => Ok(()),
        },
{
    let message = if borrowing {
        let mut m = owned("borrow binding '");
        push_text(&mut m, name);
        push_text(
            &mut m,
            "' requires an initializer; a 'var[bor]' declaration must identify the owner it loans from",
        );
        m
    } else if heap_owned {
        let mut m = owned("heap-allocating binding '");
        push_text(&mut m, name);
        push_text(
            &mut m,
            "' requires an initializer; '@var'/'[new]' must be given a value to move or clone into the allocation",
        );
        m
    } else {
        return Ok(());
    };
    Err(TypecheckError::at(TypecheckErrorKind::Uninitialized, message.as_str(), binding_origin))
}

/// The ownership state after binding `symbol` to a value of type
/// `type_id`: a recoverable eventual bound by a known symbol must be
/// handled before the symbol's scope ends, counting from
/// `activation_scope`; anything else changes nothing.
pub open spec fn after_eventual_binding(
    o: OwnershipView,
    types: Seq<CheckedTypeView>,
    symbols: Map<SymbolId, crate::model::TypedSymbol>,
    symbol: SymbolId,
    type_id: CheckedTypeId,
    activation_scope: ScopeId,
    origin: Option<SyntaxOrigin>,
) -> OwnershipView {
    let recoverable = type_id.0 < types.len() && types[type_id.0 as int] matches CheckedTypeView::Eventual {
        error_type: Some(_),
        ..
    };
    if recoverable && symbols.contains_key(symbol) {
        OwnershipView {
            obligations: o.obligations.insert(
                symbol,
                RecoverableEventualObligationView {
                    owner_scope: symbols[symbol].scope_id,
                    activation_scope,
                    origin: origin_view(origin),
                },
            ),
            ..o
        }
    } else {
        o
    }
}

/// Registers the obligation a binding of a recoverable eventual takes on.
pub fn register_recoverable_eventual_binding(
    typed: &mut TypedProgram,
    symbol: SymbolId,
    type_id: CheckedTypeId,
    activation_scope: ScopeId,
    origin: Option<SyntaxOrigin>,
)
    ensures
        final(typed).ownership() == after_eventual_binding(
            old(typed).ownership(),
            old(typed).facts().types,
            old(typed).symbol_facts(),
            symbol,
            type_id,
            activation_scope,
            origin,
        ),
        final(typed).facts() == old(typed).facts(),
        final(typed).symbol_facts() == old(typed).symbol_facts(),
{
    if !is_recoverable_eventual_type(typed, type_id) {
        return;
    }
    let scope = match typed.typed_symbol(symbol) {
        Some(s) => s.scope_id,
        None => {
            return;
        },
    };
    typed.register_recoverable_eventual_obligation(symbol, scope, activation_scope, origin);
}

/// Taking a loan from `symbol` at `origin` never conflicts with the loan
/// `symbol` itself holds: reborrowing is allowed.
pub fn reject_reborrow_source(typed: &TypedProgram, symbol: SymbolId, origin: SyntaxOrigin) -> (r:
    Result<(), TypecheckError>)
    ensures
        r is Ok,
{
    Ok(())
}

/// The initializer of a borrow binding, as far as taking the loan reads it:
/// its position and the owners it borrows (the one owner of `#owner` or of
/// an identifier, every lent-in owner of a borrow-returning call).
pub struct BorrowInitializer {
    pub origin: Option<SyntaxOrigin>,
    pub owners: Vec<SymbolId>,
}

/// The value of a `BorrowInitializer`.
pub struct BorrowSource {
    pub origin: Option<SyntaxOriginView>,
    pub owners: Seq<SymbolId>,
}

impl View for BorrowInitializer {
    type V = BorrowSource;

    open spec fn view(&self) -> BorrowSource {
        BorrowSource {
            origin: match self.origin {
                Some(o) => Some(o@),
                None => None,
            },
            owners: self.owners@,
        }
    }
}

/// The value of an optional borrow initializer.
pub open spec fn initializer_view(value: Option<BorrowInitializer>) -> Option<BorrowSource> {
    match value {
        Some(init) => Some(init@),
        None => None,
    }
}

/// Where registering a borrow binding stands: the ownership state, what
/// is known of the symbols, and the diagnostic that stopped it, if any.
pub struct BorrowPass {
    pub ownership: OwnershipView,
    pub symbols: Map<SymbolId, TypedSymbol>,
    pub error: Option<TypecheckErrorView>,
}

/// The ownership state once the lock held on `mutex`, if any, is bound to
/// a guard value.
pub open spec fn guard_bound(o: OwnershipView, mutex: SymbolId) -> OwnershipView {
    OwnershipView {
        mutex_guards: if o.mutex_guards.contains_key(mutex) {
            o.mutex_guards.insert(
                mutex,
                crate::model::ActiveMutexGuardView { bound: true, ..o.mutex_guards[mutex] },
            )
        } else {
            o.mutex_guards
        },
        ..o
    }
}

/// Why `owner` cannot lend to a new borrow binding at `origin`, if it
/// cannot: its value was moved, or a mutable loan is asked of an owner that
/// is neither mutable nor a mutex.
pub open spec fn owner_refusal(
    o: OwnershipView,
    symbols: Map<SymbolId, TypedSymbol>,
    owner: SymbolId,
    mutable: bool,
    origin: SyntaxOriginView,
) -> Option<TypecheckErrorView> {
    if o.moved_bindings.contains_key(owner) {
        Some(
            TypecheckErrorView {
                kind: TypecheckErrorKind::Ownership,
                message: "cannot borrow from an owner whose value was already moved"@,
                origin: Some(origin),
                related: seq![(o.moved_bindings[owner], "ownership moved here"@)],
            },
        )
    } else if mutable && !(symbols.contains_key(owner) && (symbols[owner].is_mutable
        || symbols[owner].is_mutex)) {
        Some(
            error_at(
                TypecheckErrorKind::BorrowMutability,
                "mutable borrow requires an owner declared with 'var[mut]'"@,
                Some(origin),
            ),
        )
    } else {
        None
    }
}

/// Checking owner `owner` of borrow binding `binding`: a refusal stops the
/// registration; a mutable loan of a mutex binds its lock to the binding,
/// which becomes a guard binding.
pub open spec fn owner_step(
    p: BorrowPass,
    binding: SymbolId,
    owner: SymbolId,
    mutable: bool,
    origin: SyntaxOriginView,
) -> BorrowPass {
    match owner_refusal(p.ownership, p.symbols, owner, mutable, origin) {
        Some(e) => BorrowPass { error: Some(e), ..p },
        None => {
            if mutable && p.symbols.contains_key(owner) && p.symbols[owner].is_mutex {
                BorrowPass {
                    ownership: guard_bound(p.ownership, owner),
                    symbols: if p.symbols.contains_key(binding) {
                        p.symbols.insert(
                            binding,
                            TypedSymbol { is_mutex_guard: true, ..p.symbols[binding] },
                        )
                    } else {
                        p.symbols
                    },
                    error: None,
                }
            } else {
                p
            }
        },
    }
}

/// The registration after checking the first `k` owners.
pub open spec fn check_owners(
    start: BorrowPass,
    binding: SymbolId,
    owners: Seq<SymbolId>,
    mutable: bool,
    origin: SyntaxOriginView,
    k: nat,
) -> BorrowPass
    decreases k,
{
    if k == 0 {
        start
    } else {
        let p = check_owners(start, binding, owners, mutable, origin, (k - 1) as nat);
        if p.error is Some {
            p
        } else {
            owner_step(p, binding, owners[k - 1], mutable, origin)
        }
    }
}

/// The diagnostic for a loan that clashes with the loan `existing`.
pub open spec fn loan_conflict_error(origin: SyntaxOriginView, existing: SyntaxOriginView) -> TypecheckErrorView {
    TypecheckErrorView {
        kind: TypecheckErrorKind::BorrowConflict,
        message: "borrow conflicts with an active mutable borrow of the same owner"@,
        origin: Some(origin),
        related: seq![(existing, "conflicting borrow created here"@)],
    }
}

/// Taking the loan of `owner` for `binding`: refused, pointing at the first
/// live loan it clashes with, or taken.
pub open spec fn loan_step(
    p: BorrowPass,
    binding: SymbolId,
    scope: ScopeId,
    owner: SymbolId,
    mutable: bool,
    origin: SyntaxOriginView,
) -> BorrowPass {
    let loans = crate::borrows::loans_on(p.ownership.active_borrows, owner);
    if exists|i: int| crate::borrows::is_first_clash(loans, i, mutable) {
        let i = choose|i: int| crate::borrows::is_first_clash(loans, i, mutable);
        BorrowPass { error: Some(loan_conflict_error(origin, loans[i].origin)), ..p }
    } else {
        BorrowPass {
            ownership: crate::borrows::with_loan(
                p.ownership,
                crate::model::ActiveBorrowView { owner, binding, scope, mutable, origin },
            ),
            ..p
        }
    }
}

/// The registration after taking the loans of the first `k` owners.
pub open spec fn take_loans(
    start: BorrowPass,
    binding: SymbolId,
    scope: ScopeId,
    owners: Seq<SymbolId>,
    mutable: bool,
    origin: SyntaxOriginView,
    k: nat,
) -> BorrowPass
    decreases k,
{
    if k == 0 {
        start
    } else {
        let p = take_loans(start, binding, scope, owners, mutable, origin, (k - 1) as nat);
        if p.error is Some {
            p
        } else {
            loan_step(p, binding, scope, owners[k - 1], mutable, origin)
        }
    }
}

/// What registering a borrow binding leaves: the ownership state, the
/// symbols, the type table, and the binding's type or a diagnostic.
pub struct BorrowBindingOutcome {
    pub ownership: OwnershipView,
    pub symbols: Map<SymbolId, TypedSymbol>,
    pub types: Seq<CheckedTypeView>,
    pub result: Result<CheckedTypeId, TypecheckErrorView>,
}

/// Where name resolution says `binding` is declared, if it knows.
pub open spec fn declared_origin(resolution: &Resolution, binding: SymbolId) -> Option<SyntaxOriginView> {
    if resolution.symbols.as_map().contains_key(binding) {
        match resolution.symbols.as_map()[binding].origin {
            Some(o) => Some(o@),
            None => None,
        }
    } else {
        None
    }
}

/// Where a borrow binding's loans are taken: at its initializer, or else
/// where the binding is declared.
pub open spec fn borrow_origin(
    resolution: &Resolution,
    binding: SymbolId,
    init: BorrowSource,
) -> Option<SyntaxOriginView> {
    match init.origin {
        Some(x) => Some(x),
        None => declared_origin(resolution, binding),
    }
}

/// A diagnostic without a position.
pub open spec fn plain_error(kind: TypecheckErrorKind, message: Seq<char>) -> TypecheckErrorView {
    TypecheckErrorView { kind, message, origin: None, related: seq![] }
}

/// What registering borrow binding `binding`, declared in `scope` with
/// initializer `value` over a value of type `inner`, comes to. The binding
/// needs an initializer and a position, its initializer an owner. Every
/// owner is checked in turn, then each lends in turn; the first refusal
/// stops the registration with what was done so far. The binding then has
/// the borrowed type of `inner`.
pub open spec fn borrow_binding_outcome(
    types: Seq<CheckedTypeView>,
    o: OwnershipView,
    symbols: Map<SymbolId, TypedSymbol>,
    resolution: &Resolution,
    scope: ScopeId,
    binding: SymbolId,
    value: Option<BorrowSource>,
    inner: CheckedTypeId,
    mutable: bool,
) -> BorrowBindingOutcome {
    match value {
        None => BorrowBindingOutcome {
            ownership: o,
            symbols,
            types,
            result: Err(
                plain_error(
                    TypecheckErrorKind::InvalidInput,
                    "borrow bindings require an owner initializer"@,
                ),
            ),
        },
        Some(init) => {
            match borrow_origin(resolution, binding, init) {
                None => BorrowBindingOutcome {
                    ownership: o,
                    symbols,
                    types,
                    result: Err(
                        plain_error(
                            TypecheckErrorKind::Internal,
                            "borrow binding lost its syntax origin"@,
                        ),
                    ),
                },
                Some(origin) => {
                    let owners = init.owners;
                    if owners.len() == 0 {
                        BorrowBindingOutcome {
                            ownership: o,
                            symbols,
                            types,
                            result: Err(
                                error_at(
                                    TypecheckErrorKind::InvalidInput,
                                    "borrow bindings require an identifier owner, '[bor]owner', or a borrow-returning call"@,
                                    Some(origin),
                                ),
                            ),
                        }
                    } else {
                        let checked = check_owners(
                            BorrowPass { ownership: o, symbols, error: None },
                            binding,
                            owners,
                            mutable,
                            origin,
                            owners.len(),
                        );
                        let loaned = if checked.error is Some {
                            checked
                        } else {
                            take_loans(checked, binding, scope, owners, mutable, origin, owners.len())
                        };
                        match loaned.error {
                            Some(e) => BorrowBindingOutcome {
                                ownership: loaned.ownership,
                                symbols: loaned.symbols,
                                types,
                                result: Err(e),
                            },
                            None => {
                                let (after, id) = crate::types::intern_spec(
                                    types,
                                    CheckedTypeView::Borrowed { inner, mutable },
                                );
                                let borrowed = CheckedTypeId(id as usize);
                                if loaned.symbols.contains_key(binding) {
                                    BorrowBindingOutcome {
                                        ownership: loaned.ownership,
                                        symbols: loaned.symbols.insert(
                                            binding,
                                            TypedSymbol {
                                                declared_type: Some(borrowed),
                                                ..loaned.symbols[binding]
                                            },
                                        ),
                                        types: after,
                                        result: Ok(borrowed),
                                    }
                                } else {
                                    BorrowBindingOutcome {
                                        ownership: loaned.ownership,
                                        symbols: loaned.symbols,
                                        types: after,
                                        result: Err(
                                            plain_error(
                                                TypecheckErrorKind::Internal,
                                                "typed borrow binding disappeared"@,
                                            ),
                                        ),
                                    }
                                }
                            },
                        }
                    }
                },
            }
        },
    }
}

proof fn lemma_checks_stay_stopped(
    start: BorrowPass,
    binding: SymbolId,
    owners: Seq<SymbolId>,
    mutable: bool,
    origin: SyntaxOriginView,
    k: nat,
    m: nat,
)
    requires
        k <= m,
        check_owners(start, binding, owners, mutable, origin, k).error is Some,
    ensures
        check_owners(start, binding, owners, mutable, origin, m) == check_owners(
            start,
            binding,
            owners,
            mutable,
            origin,
            k,
        ),
    decreases m - k,
{
    if k < m {
        lemma_checks_stay_stopped(start, binding, owners, mutable, origin, k, (m - 1) as nat);
    }
}

proof fn lemma_loans_stay_stopped(
    start: BorrowPass,
    binding: SymbolId,
    scope: ScopeId,
    owners: Seq<SymbolId>,
    mutable: bool,
    origin: SyntaxOriginView,
    k: nat,
    m: nat,
)
    requires
        k <= m,
        take_loans(start, binding, scope, owners, mutable, origin, k).error is Some,
    ensures
        take_loans(start, binding, scope, owners, mutable, origin, m) == take_loans(
            start,
            binding,
            scope,
            owners,
            mutable,
            origin,
            k,
        ),
    decreases m - k,
{
    if k < m {
        lemma_loans_stay_stopped(start, binding, scope, owners, mutable, origin, k, (m - 1) as nat);
    }
}

/// Registers borrow binding `binding`, declared in `scope` with initializer
/// `value`, over a value of type `inner`: checks each owner may lend, takes
/// a loan of each, and gives the binding the borrowed type, which it
/// returns.
pub fn register_borrow_binding(
    typed: &mut TypedProgram,
    resolution: &Resolution,
    scope: ScopeId,
    binding: SymbolId,
    value: Option<BorrowInitializer>,
    inner: CheckedTypeId,
    mutable: bool,
) -> (r: Result<CheckedTypeId, TypecheckError>)
    ensures
        ({
            let out = borrow_binding_outcome(
                old(typed).facts().types,
                old(typed).ownership(),
                old(typed).symbol_facts(),
                resolution,
                scope,
                binding,
                initializer_view(value),
                inner,
                mutable,
            );
            &&& result_view(r) == out.result
            &&& final(typed).ownership() == out.ownership
            &&& final(typed).symbol_facts() == out.symbols
            &&& final(typed).facts() == (crate::ownership::FactsView {
                types: out.types,
                ..old(typed).facts()
            })
        }),
{
    let ghost types0 = typed.facts().types;
    let ghost facts0 = typed.facts();
    let ghost start = BorrowPass {
        ownership: typed.ownership(),
        symbols: typed.symbol_facts(),
        error: None,
    };
    let init = match value {
        Some(init) => init,
        None => {
            return Err(
                TypecheckError::new(
                    TypecheckErrorKind::InvalidInput,
                    "borrow bindings require an owner initializer",
                ),
            );
        },
    };
    let origin = match init.origin {
        Some(o) => o,
        None => match resolution.symbol(binding) {
            Some(declaration) => match &declaration.origin {
                Some(o) => o.copy(),
                None => {
                    return Err(
                        crate::errors::internal_error("borrow binding lost its syntax origin", None),
                    );
                },
            },
            None => {
                return Err(
                    crate::errors::internal_error("borrow binding lost its syntax origin", None),
                );
            },
        },
    };
    let owners = init.owners;
    if owners.len() == 0 {
        return Err(
            TypecheckError::with_origin(
                TypecheckErrorKind::InvalidInput,
                "borrow bindings require an identifier owner, '[bor]owner', or a borrow-returning call",
                origin,
            ),
        );
    }
    let ghost ov = origin@;
    let mut k: usize = 0;
    while k < owners.len()
        invariant
            k <= owners.len(),
            origin@ == ov,
            typed.facts() == facts0,
            owners.len() > 0,
            start == (BorrowPass {
                ownership: old(typed).ownership(),
                symbols: old(typed).symbol_facts(),
                error: None,
            }),
            facts0 == old(typed).facts(),
            value matches Some(iv) && iv.owners@ == owners@ && borrow_origin(resolution, binding, iv@)
                == Some(ov),
            check_owners(start, binding, owners@, mutable, ov, k as nat) == (BorrowPass {
                ownership: typed.ownership(),
                symbols: typed.symbol_facts(),
                error: None,
            }),
        decreases owners.len() - k,
    {
        let owner = owners[k];
        let ghost p = check_owners(start, binding, owners@, mutable, ov, k as nat);
        match typed.moved_binding_origin(owner) {
            Some(moved) => {
                let e = TypecheckError::with_origin(
                    TypecheckErrorKind::Ownership,
                    "cannot borrow from an owner whose value was already moved",
                    origin.copy(),
                ).with_related_origin(moved.copy(), "ownership moved here");
                proof {
                    assert(e@.related =~= seq![(moved@, "ownership moved here"@)]);
                    lemma_checks_stay_stopped(
                        start,
                        binding,
                        owners@,
                        mutable,
                        ov,
                        (k + 1) as nat,
                        owners.len() as nat,
                    );
                }
                return Err(e);
            },
            None => {},
        }
        match reject_reborrow_source(typed, owner, origin.copy()) {
            Ok(()) => {},
            Err(e) => {
                return Err(e);
            },
        }
        let (owner_is_mutex, owner_may_lend) = match typed.typed_symbol(owner) {
            Some(s) => (s.is_mutex, s.is_mutable || s.is_mutex),
            None => (false, false),
        };
        if mutable && !owner_may_lend {
            proof {
                lemma_checks_stay_stopped(
                    start,
                    binding,
                    owners@,
                    mutable,
                    ov,
                    (k + 1) as nat,
                    owners.len() as nat,
                );
            }
            return Err(
                TypecheckError::with_origin(
                    TypecheckErrorKind::BorrowMutability,
                    "mutable borrow requires an owner declared with 'var[mut]'",
                    origin.copy(),
                ),
            );
        }
        if mutable && owner_is_mutex {
            typed.mark_guard_bound(owner);
            typed.set_mutex_guard(binding);
        }
        proof {
            assert(typed.ownership() == owner_step(p, binding, owner, mutable, ov).ownership);
        }
        k = k + 1;
    }
    let ghost checked = check_owners(start, binding, owners@, mutable, ov, owners.len() as nat);
    let mut k: usize = 0;
    while k < owners.len()
        invariant
            k <= owners.len(),
            origin@ == ov,
            typed.facts() == facts0,
            checked.error is None,
            owners.len() > 0,
            start == (BorrowPass {
                ownership: old(typed).ownership(),
                symbols: old(typed).symbol_facts(),
                error: None,
            }),
            facts0 == old(typed).facts(),
            value matches Some(iv) && iv.owners@ == owners@ && borrow_origin(resolution, binding, iv@)
                == Some(ov),
            checked == check_owners(start, binding, owners@, mutable, ov, owners.len() as nat),
            take_loans(checked, binding, scope, owners@, mutable, ov, k as nat) == (BorrowPass {
                ownership: typed.ownership(),
                symbols: typed.symbol_facts(),
                error: None,
            }),
        decreases owners.len() - k,
    {
        let owner = owners[k];
        let ghost p = take_loans(checked, binding, scope, owners@, mutable, ov, k as nat);
        let ghost loans = crate::borrows::loans_on(p.ownership.active_borrows, owner);
        let borrow = ActiveBorrow { owner, binding, scope, mutable, origin: origin.copy() };
        match typed.register_borrow(borrow) {
            Some(conflict) => {
                let e = TypecheckError::with_origin(
                    TypecheckErrorKind::BorrowConflict,
                    "borrow conflicts with an active mutable borrow of the same owner",
                    origin.copy(),
                ).with_related_origin(conflict.origin, "conflicting borrow created here");
                proof {
                    let w = choose|i: int|
                        crate::borrows::is_first_clash(loans, i, mutable)
                            && conflict.deep_view() == loans[i];
                    let c = choose|i: int| crate::borrows::is_first_clash(loans, i, mutable);
                    assert(w == c) by {
                        if w < c {
                            assert(!crate::borrows::clashes(loans[w], mutable));
                        } else if c < w {
                            assert(!crate::borrows::clashes(loans[c], mutable));
                        }
                    }
                    assert(e@.related =~= seq![(loans[c].origin, "conflicting borrow created here"@)]);
                    lemma_loans_stay_stopped(
                        checked,
                        binding,
                        scope,
                        owners@,
                        mutable,
                        ov,
                        (k + 1) as nat,
                        owners.len() as nat,
                    );
                }
                return Err(e);
            },
            None => {
                proof {
                    assert(!exists|i: int| crate::borrows::is_first_clash(loans, i, mutable));
                }
            },
        }
        k = k + 1;
    }
    let borrowed = typed.intern_type(CheckedType::Borrowed { inner, mutable });
    if !typed.set_declared_type(binding, borrowed) {
        return Err(crate::errors::internal_error("typed borrow binding disappeared", None));
    }
    Ok(borrowed)
}

/// The loan taken for `binding` on `owner`.
pub open spec fn loan_of(
    owner: SymbolId,
    binding: SymbolId,
    scope: ScopeId,
    mutable: bool,
    origin: SyntaxOriginView,
) -> crate::model::ActiveBorrowView {
    crate::model::ActiveBorrowView { owner, binding, scope, mutable, origin }
}

proof fn lemma_loans_taken(
    start: BorrowPass,
    binding: SymbolId,
    scope: ScopeId,
    owners: Seq<SymbolId>,
    mutable: bool,
    origin: SyntaxOriginView,
    k: nat,
)
    requires
        k <= owners.len(),
        take_loans(start, binding, scope, owners, mutable, origin, k).error is None,
    ensures
        forall|j: int|
            0 <= j < k ==> crate::borrows::loans_on(
                take_loans(start, binding, scope, owners, mutable, origin, k).ownership.active_borrows,
                #[trigger] owners[j],
            ).contains(loan_of(owners[j], binding, scope, mutable, origin)),
    decreases k,
{
    if k > 0 {
        let p = take_loans(start, binding, scope, owners, mutable, origin, (k - 1) as nat);
        lemma_loans_taken(start, binding, scope, owners, mutable, origin, (k - 1) as nat);
        let owner = owners[k - 1];
        let q = take_loans(start, binding, scope, owners, mutable, origin, k);
        let before = crate::borrows::loans_on(p.ownership.active_borrows, owner);
        assert(q.ownership == crate::borrows::with_loan(
            p.ownership,
            loan_of(owner, binding, scope, mutable, origin),
        ));
        assert forall|j: int| 0 <= j < k implies crate::borrows::loans_on(
            q.ownership.active_borrows,
            #[trigger] owners[j],
        ).contains(loan_of(owners[j], binding, scope, mutable, origin)) by {
            let b = loan_of(owners[j], binding, scope, mutable, origin);
            if owners[j] == owner {
                let after = before.push(loan_of(owner, binding, scope, mutable, origin));
                assert(after[after.len() - 1] == loan_of(owner, binding, scope, mutable, origin));
                if j < k - 1 {
                    let w = choose|w: int| 0 <= w < before.len() && before[w] == b;
                    assert(after[w] == b);
                }
            }
        }
    }
}

/// A borrow binding that registers holds a live loan on every owner it
/// borrows, taken where its loans are taken and in the mode asked, and its
/// declared type is the type returned.
pub proof fn law_borrow_binding_locks_every_owner(
    types: Seq<CheckedTypeView>,
    o: OwnershipView,
    symbols: Map<SymbolId, TypedSymbol>,
    resolution: &Resolution,
    scope: ScopeId,
    binding: SymbolId,
    value: Option<BorrowSource>,
    inner: CheckedTypeId,
    mutable: bool,
)
    requires
        borrow_binding_outcome(types, o, symbols, resolution, scope, binding, value, inner, mutable).result is Ok,
    ensures
        ({
            let out = borrow_binding_outcome(
                types,
                o,
                symbols,
                resolution,
                scope,
                binding,
                value,
                inner,
                mutable,
            );
            &&& value matches Some(init) && borrow_origin(resolution, binding, init) matches Some(
                origin,
            ) && forall|j: int|
                0 <= j < init.owners.len() ==> crate::borrows::loans_on(
                    out.ownership.active_borrows,
                    #[trigger] init.owners[j],
                ).contains(loan_of(init.owners[j], binding, scope, mutable, origin))
            &&& out.symbols.contains_key(binding)
            &&& out.symbols[binding].declared_type == Some(out.result->Ok_0)
        }),
{
    let init = value->Some_0;
    let origin = borrow_origin(resolution, binding, init)->Some_0;
    let owners = init.owners;
    let checked = check_owners(
        BorrowPass { ownership: o, symbols, error: None },
        binding,
        owners,
        mutable,
        origin,
        owners.len(),
    );
    lemma_loans_taken(checked, binding, scope, owners, mutable, origin, owners.len());
}

} // verus!
