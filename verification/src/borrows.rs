//! Loans on owners: taking them, giving them back, releasing them when their
//! scope or their last use ends; and held mutex locks.
use crate::ids::{ScopeId, SymbolId, SyntaxOrigin};
use crate::apparent::type_at;
use crate::model::{ActiveBorrow, ActiveBorrowView, ActiveMutexGuard, TypedProgram, TypedSymbol};
use crate::ownership::FactsView;
use crate::types::{CheckedType, CheckedTypeView};
use crate::ownership::OwnershipView;
use crate::sorted_map::{Duplicate, SortKey, SortedMap};
use vstd::prelude::*;

verus! {

/// Whether one of `loans` was taken by a binding in `bindings`.
pub open spec fn held_by_any(loans: Seq<ActiveBorrowView>, bindings: Set<SymbolId>) -> bool {
    exists|i: int| 0 <= i < loans.len() && bindings.contains(#[trigger] loans[i].binding)
}

/// `loans`, in order, without those taken by a binding in `bindings`.
pub open spec fn loans_kept(loans: Seq<ActiveBorrowView>, bindings: Set<SymbolId>) -> Seq<
    ActiveBorrowView,
> {
    loans.filter(|b: ActiveBorrowView| !bindings.contains(b.binding))
}

/// The loans on each owner once every loan taken by a binding in `bindings`
/// ended, looking only at the owners listed in `owners`. An owner whose
/// loans all ended disappears.
pub open spec fn loans_ended_among(
    active: Map<SymbolId, Seq<ActiveBorrowView>>,
    bindings: Set<SymbolId>,
    owners: Seq<SymbolId>,
) -> Map<SymbolId, Seq<ActiveBorrowView>> {
    Map::new(
        |o: SymbolId|
            active.contains_key(o) && (owners.contains(o) && held_by_any(active[o], bindings)
                ==> loans_kept(active[o], bindings).len() > 0),
        |o: SymbolId|
            if owners.contains(o) && held_by_any(active[o], bindings) {
                loans_kept(active[o], bindings)
            } else {
                active[o]
            },
    )
}

/// The loans on each owner once every loan taken by a binding in `bindings`
/// ended. An owner whose loans all ended disappears; the others keep their
/// loans in order.
pub open spec fn loans_ended(
    active: Map<SymbolId, Seq<ActiveBorrowView>>,
    bindings: Set<SymbolId>,
) -> Map<SymbolId, Seq<ActiveBorrowView>> {
    Map::new(
        |o: SymbolId|
            active.contains_key(o) && (held_by_any(active[o], bindings) ==> loans_kept(
                active[o],
                bindings,
            ).len() > 0),
        |o: SymbolId|
            if held_by_any(active[o], bindings) {
                loans_kept(active[o], bindings)
            } else {
                active[o]
            },
    )
}

/// Whether `b` is listed in `bindings`.
fn listed(bindings: &Vec<SymbolId>, b: SymbolId) -> (r: bool)
    ensures
        r == bindings@.contains(b),
{
    let mut i: usize = 0;
    while i < bindings.len()
        invariant
            i <= bindings@.len(),
            forall|j: int| 0 <= j < i ==> bindings@[j] != b,
        decreases bindings@.len() - i,
    {
        if bindings[i].0 == b.0 {
            proof {
                assert(bindings@[i as int] == b);
            }
            return true;
        }
        i = i + 1;
    }
    false
}

/// Whether one of `loans` was taken by a binding in `bindings`.
fn loans_held_by(loans: &Vec<ActiveBorrow>, bindings: &Vec<SymbolId>) -> (r: bool)
    ensures
        r == held_by_any(loans.deep_view(), bindings@.to_set()),
{
    let mut i: usize = 0;
    while i < loans.len()
        invariant
            i <= loans@.len(),
            forall|j: int|
                0 <= j < i ==> !bindings@.to_set().contains(#[trigger] loans.deep_view()[j].binding),
        decreases loans@.len() - i,
    {
        if listed(bindings, loans[i].binding) {
            proof {
                assert(loans.deep_view()[i as int].binding == loans@[i as int].binding);
            }
            return true;
        }
        proof {
            assert(loans.deep_view()[i as int].binding == loans@[i as int].binding);
        }
        i = i + 1;
    }
    false
}

/// Copies of `loans`, in order, without those taken by a binding in
/// `bindings`.
fn keep_loans(loans: &Vec<ActiveBorrow>, bindings: &Vec<SymbolId>) -> (r: Vec<ActiveBorrow>)
    ensures
        r.deep_view() == loans_kept(loans.deep_view(), bindings@.to_set()),
{
    let ghost all = loans.deep_view();
    let ghost keep = |b: ActiveBorrowView| !bindings@.to_set().contains(b.binding);
    let mut out: Vec<ActiveBorrow> = Vec::new();
    let mut i: usize = 0;
    while i < loans.len()
        invariant
            i <= loans@.len(),
            all == loans.deep_view(),
            keep == (|b: ActiveBorrowView| !bindings@.to_set().contains(b.binding)),
            out.deep_view() == all.take(i as int).filter(keep),
        decreases loans@.len() - i,
    {
        let ghost before = out.deep_view();
        proof {
            assert(all.take(i + 1) =~= all.take(i as int).push(all[i as int]));
            all.take(i as int).lemma_filter_push(all[i as int], keep);
        }
        if !listed(bindings, loans[i].binding) {
            let copy = loans[i].duplicate();
            out.push(copy);
            proof {
                assert(out.deep_view() =~= before.push(all[i as int]));
            }
        }
        i = i + 1;
    }
    proof {
        assert(all.take(i as int) =~= all);
    }
    out
}

impl TypedProgram {
    /// Ends every loan taken by a binding in `bindings`, on every owner.
    fn end_loans_of(&mut self, bindings: &Vec<SymbolId>)
        ensures
            final(self).ownership() == (OwnershipView {
                active_borrows: loans_ended(old(self).ownership().active_borrows, bindings@.to_set()),
                ..old(self).ownership()
            }),
            final(self).facts() == old(self).facts(),
            final(self).symbol_facts() == old(self).symbol_facts(),
    {
        let ghost s0 = *old(self);
        let ghost a = s0.active_borrows.deep_view();
        let ghost d = bindings@.to_set();
        let owners = self.active_borrows.keys();
        let ghost e = self.active_borrows.entries();
        proof {
            assert(owners@ =~= crate::sorted_map::key_views(owners@));
            assert forall|i: int, k: int| 0 <= i < k < owners@.len() implies owners@[i]
                != owners@[k] by {
                assert(owners@[i] == e[i].0);
                assert(owners@[k] == e[k].0);
                assert(crate::sorted_map::keys_increasing::<SymbolId, Vec<ActiveBorrow>>(e));
                assert(<SymbolId as SortKey>::key_lt(e[i].0, e[k].0));
            }
            assert forall|o: SymbolId| a.contains_key(o) <==> owners@.contains(o) by {
                if a.contains_key(o) {
                    let p = crate::sorted_map::seq_key_index(e, o);
                    assert(owners@[p] == e[p].0);
                }
                if owners@.contains(o) {
                    let p = choose|p: int| 0 <= p < owners@.len() && owners@[p] == o;
                    assert(owners@[p] == e[p].0);
                    crate::sorted_map::lemma_key_position::<SymbolId, Vec<ActiveBorrow>>(e, p);
                }
            }
            assert(self.active_borrows.deep_view() =~= loans_ended_among(a, d, owners@.take(0)));
        }
        let mut j: usize = 0;
        while j < owners.len()
            invariant
                j <= owners@.len(),
                d == bindings@.to_set(),
                forall|i: int, k: int| 0 <= i < k < owners@.len() ==> owners@[i] != owners@[k],
                forall|o: SymbolId| a.contains_key(o) <==> owners@.contains(o),
                self.active_borrows.deep_view() == loans_ended_among(a, d, owners@.take(j as int)),
                *self == (TypedProgram { active_borrows: self.active_borrows, ..s0 }),
            decreases owners@.len() - j,
        {
            let owner = owners[j];
            let ghost cur = self.active_borrows;
            let ghost before = owners@.take(j as int);
            let ghost after = owners@.take(j + 1);
            proof {
                assert(after =~= before.push(owner));
                assert forall|o: SymbolId| #[trigger] after.contains(o) <==> (before.contains(o) || o
                    == owner) by {
                    if after.contains(o) {
                        let p = choose|p: int| 0 <= p < after.len() && after[p] == o;
                        if p < j {
                            assert(before[p] == o);
                        }
                    }
                    if before.contains(o) {
                        let p = choose|p: int| 0 <= p < before.len() && before[p] == o;
                        assert(after[p] == o);
                    }
                    if o == owner {
                        assert(after[j as int] == o);
                    }
                }
                if before.contains(owner) {
                    let p = choose|p: int| 0 <= p < before.len() && before[p] == owner;
                    assert(owners@[p] == owners@[j as int]);
                }
                assert(owners@.contains(owner));
                assert(a.contains_key(owner));
                assert(cur.deep_view().contains_key(owner));
                assert(cur.deep_view()[owner] == a[owner]);
            }
            let mut changed = false;
            let mut kept: Vec<ActiveBorrow> = Vec::new();
            match self.active_borrows.get(&owner) {
                Some(loans) => {
                    if loans_held_by(loans, bindings) {
                        changed = true;
                        kept = keep_loans(loans, bindings);
                    }
                },
                None => {},
            }
            if changed {
                if kept.len() > 0 {
                    let ghost kept_g = kept;
                    self.active_borrows.insert(owner, kept);
                    proof {
                        SortedMap::<SymbolId, Vec<ActiveBorrow>>::lemma_deep_insert(
                            &cur,
                            &self.active_borrows,
                            owner,
                            kept_g,
                        );
                    }
                } else {
                    self.active_borrows.remove(&owner);
                    proof {
                        SortedMap::<SymbolId, Vec<ActiveBorrow>>::lemma_deep_remove(
                            &cur,
                            &self.active_borrows,
                            owner,
                        );
                    }
                }
            }
            proof {
                let target = loans_ended_among(a, d, after);
                let now = self.active_borrows.deep_view();
                assert forall|o: SymbolId| o != owner implies #[trigger] now.contains_key(o)
                    == target.contains_key(o) && (now.contains_key(o) ==> now[o] == target[o]) by {
                    assert(after.contains(o) == before.contains(o));
                }
                assert(now.contains_key(owner) == target.contains_key(owner));
                assert(now.contains_key(owner) ==> now[owner] == target[owner]);
                assert(now =~= target);
            }
            j = j + 1;
        }
        proof {
            assert(owners@.take(j as int) =~= owners@);
            assert(self.active_borrows.deep_view() =~= loans_ended(a, d));
            s0.lemma_state_fields();
            self.lemma_state_fields();
            assert(self.ownership() =~= (OwnershipView {
                active_borrows: loans_ended(a, d),
                ..s0.ownership()
            }));
        }
    }
}

/// The loans on `owner`, oldest first.
pub open spec fn loans_on(active: Map<SymbolId, Seq<ActiveBorrowView>>, owner: SymbolId) -> Seq<
    ActiveBorrowView,
> {
    if active.contains_key(owner) {
        active[owner]
    } else {
        Seq::empty()
    }
}

/// Whether a new loan, mutable or not, clashes with an existing loan on the
/// same owner: a mutable loan clashes with any other, shared loans with a
/// mutable one.
pub open spec fn clashes(existing: ActiveBorrowView, mutable: bool) -> bool {
    mutable || existing.mutable
}

/// Position `i` holds the first loan in `loans` that a new loan clashes with.
pub open spec fn is_first_clash(loans: Seq<ActiveBorrowView>, i: int, mutable: bool) -> bool {
    &&& 0 <= i < loans.len()
    &&& clashes(loans[i], mutable)
    &&& forall|j: int| 0 <= j < i ==> !clashes(#[trigger] loans[j], mutable)
}

/// The ownership state once `borrow` is taken: the loan joins its owner's
/// loans, becomes its binding's live and latest loan, and the owner's first
/// loan if it had none before.
pub open spec fn with_loan(o: OwnershipView, borrow: ActiveBorrowView) -> OwnershipView {
    OwnershipView {
        active_borrows: o.active_borrows.insert(
            borrow.owner,
            loans_on(o.active_borrows, borrow.owner).push(borrow),
        ),
        borrow_bindings: o.borrow_bindings.insert(borrow.binding, borrow),
        borrow_history: o.borrow_history.insert(borrow.binding, borrow),
        owner_borrow_history: crate::ownership::or_insert(
            o.owner_borrow_history,
            borrow.owner,
            borrow,
        ),
        ..o
    }
}

/// Every owner in `active` holds at least one loan, and an owner holding a
/// mutable loan holds no other.
pub open spec fn loans_well_formed(active: Map<SymbolId, Seq<ActiveBorrowView>>) -> bool {
    forall|o: SymbolId|
        #[trigger] active.contains_key(o) ==> active[o].len() > 0 && forall|i: int|
            0 <= i < active[o].len() && (#[trigger] active[o][i]).mutable ==> active[o].len()
                == 1
}

/// Ending loans keeps every owner's loans well formed.
pub proof fn lemma_ending_loans_keeps_them_well_formed(
    active: Map<SymbolId, Seq<ActiveBorrowView>>,
    bindings: Set<SymbolId>,
)
    requires
        loans_well_formed(active),
    ensures
        loans_well_formed(loans_ended(active, bindings)),
{
    let after = loans_ended(active, bindings);
    assert forall|o: SymbolId| #[trigger] after.contains_key(o) implies after[o].len() > 0
        && forall|i: int|
        0 <= i < after[o].len() && (#[trigger] after[o][i]).mutable ==> after[o].len() == 1 by {
        if held_by_any(active[o], bindings) {
            let kept = loans_kept(active[o], bindings);
            let keep = |b: ActiveBorrowView| !bindings.contains(b.binding);
            active[o].lemma_filter_len(keep);
            assert forall|i: int| 0 <= i < kept.len() && (#[trigger] kept[i]).mutable implies kept.len()
                == 1 by {
                assert(kept.contains(kept[i]));
                active[o].lemma_filter_contains_rev(keep, kept[i]);
                let k = choose|k: int| 0 <= k < active[o].len() && active[o][k] == kept[i];
                assert(active[o][k].mutable);
            }
        }
    }
}

/// Taking a loan that clashes with none keeps every owner's loans well
/// formed.
pub proof fn lemma_taking_a_loan_keeps_them_well_formed(
    active: Map<SymbolId, Seq<ActiveBorrowView>>,
    borrow: ActiveBorrowView,
)
    requires
        loans_well_formed(active),
        forall|i: int|
            0 <= i < loans_on(active, borrow.owner).len() ==> !clashes(
                #[trigger] loans_on(active, borrow.owner)[i],
                borrow.mutable,
            ),
    ensures
        loans_well_formed(
            active.insert(borrow.owner, loans_on(active, borrow.owner).push(borrow)),
        ),
{
    let loans = loans_on(active, borrow.owner);
    let after = active.insert(borrow.owner, loans.push(borrow));
    assert forall|o: SymbolId| #[trigger] after.contains_key(o) implies after[o].len() > 0
        && forall|i: int|
        0 <= i < after[o].len() && (#[trigger] after[o][i]).mutable ==> after[o].len() == 1 by {
        if o == borrow.owner {
            assert forall|i: int| 0 <= i < after[o].len() && (#[trigger] after[o][i]).mutable implies after[o].len()
                == 1 by {
                if loans.len() > 0 {
                    assert(!clashes(loans[0], borrow.mutable));
                    if i < loans.len() {
                        assert(!clashes(loans[i], borrow.mutable));
                    }
                }
            }
        }
    }
}

impl TypedProgram {
    /// Takes `borrow` unless it clashes with a live loan on the same owner;
    /// returns the first such loan, leaving the state as it was.
    pub fn register_borrow(&mut self, borrow: ActiveBorrow) -> (r: Option<ActiveBorrow>)
        ensures
            match r {
                Some(c) => {
                    &&& exists|i: int|
                        is_first_clash(
                            loans_on(old(self).ownership().active_borrows, borrow.owner),
                            i,
                            borrow.mutable,
                        ) && c.deep_view() == loans_on(
                            old(self).ownership().active_borrows,
                            borrow.owner,
                        )[i]
                    &&& final(self).ownership() == old(self).ownership()
                },
                None => {
                    &&& forall|i: int|
                        0 <= i < loans_on(old(self).ownership().active_borrows, borrow.owner).len()
                            ==> !clashes(
                            #[trigger] loans_on(old(self).ownership().active_borrows, borrow.owner)[i],
                            borrow.mutable,
                        )
                    &&& final(self).ownership() == with_loan(old(self).ownership(), borrow.deep_view())
                },
            },
            loans_well_formed(old(self).ownership().active_borrows) ==> loans_well_formed(
                final(self).ownership().active_borrows,
            ),
            final(self).facts() == old(self).facts(),
            final(self).symbol_facts() == old(self).symbol_facts(),
    {
        let ghost s0 = *old(self);
        let ghost o0 = s0.ownership();
        let ghost loans = loans_on(o0.active_borrows, borrow.owner);
        proof {
            s0.lemma_state_fields();
        }
        match self.active_borrows.get(&borrow.owner) {
            Some(active) => {
                let mut i: usize = 0;
                while i < active.len()
                    invariant
                        i <= active@.len(),
                        active.deep_view() == loans,
                        loans == loans_on(old(self).ownership().active_borrows, borrow.owner),
                        *self == *old(self),
                        forall|j: int| 0 <= j < i ==> !clashes(#[trigger] loans[j], borrow.mutable),
                    decreases active@.len() - i,
                {
                    if borrow.mutable || active[i].mutable {
                        let c = active[i].duplicate();
                        proof {
                            assert(is_first_clash(loans, i as int, borrow.mutable));
                            assert(c.deep_view() == loans[i as int]);
                        }
                        return Some(c);
                    }
                    i = i + 1;
                }
            },
            None => {},
        }
        let ghost bv = borrow.deep_view();
        let loans_now = match self.active_borrows.remove(&borrow.owner) {
            Some(v) => v,
            None => Vec::new(),
        };
        let ghost after_remove = self.active_borrows;
        proof {
            SortedMap::<SymbolId, Vec<ActiveBorrow>>::lemma_deep_remove(
                &s0.active_borrows,
                &after_remove,
                borrow.owner,
            );
            assert(loans_now.deep_view() == loans);
        }
        let mut grown = loans_now;
        grown.push(borrow.duplicate());
        proof {
            assert(grown.deep_view() =~= loans.push(bv));
        }
        let ghost grown_g = grown;
        self.active_borrows.insert(borrow.owner, grown);
        proof {
            SortedMap::<SymbolId, Vec<ActiveBorrow>>::lemma_deep_insert(
                &after_remove,
                &self.active_borrows,
                borrow.owner,
                grown_g,
            );
        }
        let ghost h0 = self.borrow_history;
        let history_copy = borrow.duplicate();
        self.borrow_history.insert(borrow.binding, history_copy);
        proof {
            SortedMap::<SymbolId, ActiveBorrow>::lemma_deep_insert(
                &h0,
                &self.borrow_history,
                borrow.binding,
                history_copy,
            );
        }
        if !self.owner_borrow_history.contains_key(&borrow.owner) {
            let ghost oh0 = self.owner_borrow_history;
            let first_copy = borrow.duplicate();
            self.owner_borrow_history.insert(borrow.owner, first_copy);
            proof {
                SortedMap::<SymbolId, ActiveBorrow>::lemma_deep_insert(
                    &oh0,
                    &self.owner_borrow_history,
                    borrow.owner,
                    first_copy,
                );
            }
        }
        let ghost b0 = self.borrow_bindings;
        let binding = borrow.binding;
        let ghost borrow_g = borrow;
        self.borrow_bindings.insert(binding, borrow);
        proof {
            SortedMap::<SymbolId, ActiveBorrow>::lemma_deep_insert(
                &b0,
                &self.borrow_bindings,
                binding,
                borrow_g,
            );
            self.lemma_state_fields();
            assert(self.ownership().active_borrows =~= o0.active_borrows.insert(
                bv.owner,
                loans.push(bv),
            ));
            assert(self.ownership() =~= with_loan(o0, bv));
            if loans_well_formed(o0.active_borrows) {
                lemma_taking_a_loan_keeps_them_well_formed(o0.active_borrows, bv);
            }
        }
        None
    }

    /// Gives back the loan held by `binding` at `origin`: ends its loans on
    /// every owner and records the give-back. Returns whether the binding
    /// held a live loan; if not, nothing changes.
    pub fn give_back_borrow(&mut self, binding: SymbolId, origin: SyntaxOrigin) -> (r: bool)
        ensures
            r == old(self).ownership().borrow_bindings.contains_key(binding),
            r ==> final(self).ownership() == (OwnershipView {
                borrow_bindings: old(self).ownership().borrow_bindings.remove(binding),
                active_borrows: loans_ended(
                    old(self).ownership().active_borrows,
                    set![binding],
                ),
                returned_borrows: old(self).ownership().returned_borrows.insert(binding, origin@),
                ..old(self).ownership()
            }),
            !r ==> final(self).ownership() == old(self).ownership(),
            loans_well_formed(old(self).ownership().active_borrows) ==> loans_well_formed(
                final(self).ownership().active_borrows,
            ),
            final(self).facts() == old(self).facts(),
            final(self).symbol_facts() == old(self).symbol_facts(),
    {
        let ghost s0 = *old(self);
        proof {
            s0.lemma_state_fields();
        }
        let ghost b0 = self.borrow_bindings;
        match self.borrow_bindings.remove(&binding) {
            None => {
                proof {
                    SortedMap::<SymbolId, ActiveBorrow>::lemma_deep_remove(
                        &b0,
                        &self.borrow_bindings,
                        binding,
                    );
                    self.lemma_state_fields();
                    assert(self.borrow_bindings.deep_view() =~= b0.deep_view());
                    assert(self.ownership() =~= s0.ownership());
                }
                return false;
            },
            Some(_) => {},
        }
        proof {
            SortedMap::<SymbolId, ActiveBorrow>::lemma_deep_remove(&b0, &self.borrow_bindings, binding);
        }
        let ghost s1 = *self;
        let mut gone: Vec<SymbolId> = Vec::new();
        gone.push(binding);
        proof {
            assert(gone@[0] == binding);
            assert forall|x: SymbolId| #[trigger] gone@.to_set().contains(x) == (x == binding) by {
                if x == binding {
                    assert(gone@[0] == x);
                }
            }
            assert(gone@.to_set() =~= set![binding]);
            s1.lemma_state_fields();
        }
        self.end_loans_of(&gone);
        let ghost s2 = *self;
        let ghost r0 = self.returned_borrows;
        let ghost origin_g = origin;
        self.returned_borrows.insert(binding, origin);
        proof {
            SortedMap::<SymbolId, SyntaxOrigin>::lemma_deep_insert(
                &r0,
                &self.returned_borrows,
                binding,
                origin_g,
            );
            s2.lemma_state_fields();
            self.lemma_state_fields();
            assert(self.ownership() =~= (OwnershipView {
                borrow_bindings: s0.ownership().borrow_bindings.remove(binding),
                active_borrows: loans_ended(s0.ownership().active_borrows, set![binding]),
                returned_borrows: s0.ownership().returned_borrows.insert(binding, origin@),
                ..s0.ownership()
            }));
            if loans_well_formed(s0.ownership().active_borrows) {
                lemma_ending_loans_keeps_them_well_formed(s0.ownership().active_borrows, set![binding]);
            }
        }
        true
    }
}

/// The borrowing bindings whose live loan was taken in `scope`.
pub open spec fn bindings_in_scope(
    borrow_bindings: Map<SymbolId, ActiveBorrowView>,
    scope: ScopeId,
) -> Set<SymbolId> {
    Set::new(|b: SymbolId| borrow_bindings.contains_key(b) && borrow_bindings[b].scope == scope)
}

/// The borrowing bindings of `scope` that are dead once statement
/// `stmt_index` completed: no later use is recorded for them, or their last
/// use is at or before it.
pub open spec fn bindings_dead_after(
    borrow_bindings: Map<SymbolId, ActiveBorrowView>,
    scope: ScopeId,
    stmt_index: usize,
    last_use: Map<SymbolId, usize>,
) -> Set<SymbolId> {
    Set::new(
        |b: SymbolId|
            borrow_bindings.contains_key(b) && borrow_bindings[b].scope == scope && (
            !last_use.contains_key(b) || last_use[b] <= stmt_index),
    )
}

/// The ownership state once the live loans of `bindings` are released: the
/// bindings stop borrowing and their loans end, without a give-back.
pub open spec fn loans_released(o: OwnershipView, bindings: Set<SymbolId>) -> OwnershipView {
    OwnershipView {
        borrow_bindings: o.borrow_bindings.remove_keys(bindings),
        active_borrows: loans_ended(o.active_borrows, bindings),
        ..o
    }
}

impl TypedProgram {
    /// Releases the live loans of the bindings in `dead`.
    fn release_bindings(&mut self, dead: &Vec<SymbolId>)
        ensures
            final(self).ownership() == loans_released(old(self).ownership(), dead@.to_set()),
            loans_well_formed(old(self).ownership().active_borrows) ==> loans_well_formed(
                final(self).ownership().active_borrows,
            ),
            final(self).facts() == old(self).facts(),
            final(self).symbol_facts() == old(self).symbol_facts(),
    {
        let ghost s0 = *old(self);
        let ghost b0 = self.borrow_bindings;
        self.borrow_bindings.remove_keys(dead);
        proof {
            assert(crate::sorted_map::key_views(dead@) =~= dead@);
            SortedMap::<SymbolId, ActiveBorrow>::lemma_deep_remove_keys(
                &b0,
                &self.borrow_bindings,
                dead@.to_set(),
            );
        }
        let ghost s1 = *self;
        self.end_loans_of(dead);
        proof {
            s0.lemma_state_fields();
            s1.lemma_state_fields();
            assert(self.ownership() =~= loans_released(s0.ownership(), dead@.to_set()));
            if loans_well_formed(s0.ownership().active_borrows) {
                lemma_ending_loans_keeps_them_well_formed(
                    s0.ownership().active_borrows,
                    dead@.to_set(),
                );
            }
        }
    }

    /// Releases the loans taken in `scope` as the scope ends.
    pub fn release_borrows_in_scope(&mut self, scope: ScopeId)
        ensures
            final(self).ownership() == loans_released(
                old(self).ownership(),
                bindings_in_scope(old(self).ownership().borrow_bindings, scope),
            ),
            loans_well_formed(old(self).ownership().active_borrows) ==> loans_well_formed(
                final(self).ownership().active_borrows,
            ),
            final(self).facts() == old(self).facts(),
            final(self).symbol_facts() == old(self).symbol_facts(),
    {
        let ghost s0 = *old(self);
        let bb = &self.borrow_bindings;
        let ghost e = bb.entries();
        let ghost p = |entry: (SymbolId, ActiveBorrow)| entry.1.scope == scope;
        bb.is_well_formed();
        let mut dead: Vec<SymbolId> = Vec::new();
        let mut i: usize = 0;
        while i < bb.len()
            invariant
                i <= e.len(),
                e == bb.entries(),
                p == (|entry: (SymbolId, ActiveBorrow)| entry.1.scope == scope),
                dead@.to_set() == crate::sorted_map::keys_where(e, i as int, p),
            decreases e.len() - i,
        {
            proof {
                crate::sorted_map::lemma_keys_where_step(e, i as int, p);
            }
            if bb.value_at(i).scope.0 == scope.0 {
                let k = *bb.key_at(i);
                proof {
                    dead@.lemma_push_to_set_commute(k);
                }
                dead.push(k);
            }
            i = i + 1;
        }
        proof {
            crate::sorted_map::lemma_keys_where_all::<SymbolId, ActiveBorrow>(e, p);
            s0.lemma_state_fields();
            assert(dead@.to_set() =~= bindings_in_scope(s0.ownership().borrow_bindings, scope));
        }
        self.release_bindings(&dead);
    }

    /// Releases, as statement `stmt_index` of `scope` completes, the loans of
    /// that scope's borrowing bindings that are not used after it; `last_use`
    /// gives each binding's last use. The loans end early, without a
    /// give-back.
    pub fn release_scope_borrows_dead_after(
        &mut self,
        scope: ScopeId,
        stmt_index: usize,
        last_use: &SortedMap<SymbolId, usize>,
    )
        ensures
            final(self).ownership() == loans_released(
                old(self).ownership(),
                bindings_dead_after(
                    old(self).ownership().borrow_bindings,
                    scope,
                    stmt_index,
                    last_use.as_map(),
                ),
            ),
            loans_well_formed(old(self).ownership().active_borrows) ==> loans_well_formed(
                final(self).ownership().active_borrows,
            ),
            final(self).facts() == old(self).facts(),
            final(self).symbol_facts() == old(self).symbol_facts(),
    {
        let ghost s0 = *old(self);
        let ghost lu = last_use.as_map();
        let bb = &self.borrow_bindings;
        let ghost e = bb.entries();
        let ghost p = |entry: (SymbolId, ActiveBorrow)|
            entry.1.scope == scope && (!lu.contains_key(entry.0) || lu[entry.0] <= stmt_index);
        bb.is_well_formed();
        let mut dead: Vec<SymbolId> = Vec::new();
        let mut i: usize = 0;
        while i < bb.len()
            invariant
                i <= e.len(),
                e == bb.entries(),
                lu == last_use.as_map(),
                p == (|entry: (SymbolId, ActiveBorrow)|
                    entry.1.scope == scope && (!lu.contains_key(entry.0) || lu[entry.0]
                        <= stmt_index)),
                dead@.to_set() == crate::sorted_map::keys_where(e, i as int, p),
            decreases e.len() - i,
        {
            proof {
                crate::sorted_map::lemma_keys_where_step(e, i as int, p);
            }
            let k = *bb.key_at(i);
            if bb.value_at(i).scope.0 == scope.0 {
                let unused_later = match last_use.get(&k) {
                    Some(last) => *last <= stmt_index,
                    None => true,
                };
                if unused_later {
                    proof {
                        dead@.lemma_push_to_set_commute(k);
                    }
                    dead.push(k);
                }
            }
            i = i + 1;
        }
        proof {
            crate::sorted_map::lemma_keys_where_all::<SymbolId, ActiveBorrow>(e, p);
            s0.lemma_state_fields();
            assert(dead@.to_set() =~= bindings_dead_after(
                s0.ownership().borrow_bindings,
                scope,
                stmt_index,
                lu,
            ));
        }
        self.release_bindings(&dead);
    }
}

impl TypedProgram {
    /// The loans ever taken, by borrowing binding in increasing order, each
    /// the latest that binding took.
    pub closed spec fn borrow_history_entries(&self) -> Seq<(SymbolId, ActiveBorrowView)> {
        self.borrow_history.deep_entries()
    }

    /// The first live loan on `owner`.
    pub fn active_borrow_for_owner(&self, owner: SymbolId) -> (r: Option<&ActiveBorrow>)
        ensures
            match r {
                Some(b) => loans_on(self.ownership().active_borrows, owner).len() > 0
                    && b.deep_view() == loans_on(self.ownership().active_borrows, owner)[0],
                None => loans_on(self.ownership().active_borrows, owner).len() == 0,
            },
    {
        proof {
            self.lemma_state_fields();
        }
        match self.active_borrows.get(&owner) {
            Some(loans) => {
                if loans.len() > 0 {
                    Some(&loans[0])
                } else {
                    None
                }
            },
            None => None,
        }
    }

    /// The live loan `binding` holds.
    pub fn active_borrow_binding(&self, binding: SymbolId) -> (r: Option<&ActiveBorrow>)
        ensures
            match r {
                Some(b) => self.ownership().borrow_bindings.contains_key(binding)
                    && b.deep_view() == self.ownership().borrow_bindings[binding],
                None => !self.ownership().borrow_bindings.contains_key(binding),
            },
    {
        proof {
            self.lemma_state_fields();
        }
        self.borrow_bindings.get(&binding)
    }

    /// The latest loan `binding` ever took, live or not.
    pub fn borrow_for_binding(&self, binding: SymbolId) -> (r: Option<&ActiveBorrow>)
        ensures
            match r {
                Some(b) => self.ownership().borrow_history.contains_key(binding)
                    && b.deep_view() == self.ownership().borrow_history[binding],
                None => !self.ownership().borrow_history.contains_key(binding),
            },
    {
        proof {
            self.lemma_state_fields();
        }
        self.borrow_history.get(&binding)
    }

    /// The first loan ever taken on `owner`, live or not.
    pub fn borrow_for_owner(&self, owner: SymbolId) -> (r: Option<&ActiveBorrow>)
        ensures
            match r {
                Some(b) => self.ownership().owner_borrow_history.contains_key(owner)
                    && b.deep_view() == self.ownership().owner_borrow_history[owner],
                None => !self.ownership().owner_borrow_history.contains_key(owner),
            },
    {
        proof {
            self.lemma_state_fields();
        }
        self.owner_borrow_history.get(&owner)
    }

    /// The latest loan of each binding that ever borrowed `owner`, by
    /// binding in increasing order.
    pub fn borrows_for_owner(&self, owner: SymbolId) -> (r: Vec<&ActiveBorrow>)
        ensures
            r.deep_view() == self.borrow_history_entries().filter(
                |e: (SymbolId, ActiveBorrowView)| e.1.owner == owner,
            ).map_values(|e: (SymbolId, ActiveBorrowView)| e.1),
            crate::sorted_map::keys_increasing::<SymbolId, ActiveBorrowView>(
                self.borrow_history_entries(),
            ),
            crate::sorted_map::seq_to_map(self.borrow_history_entries())
                == self.ownership().borrow_history,
    {
        self.borrow_history.is_well_formed();
        proof {
            self.lemma_state_fields();
            self.borrow_history.lemma_deep_view_from_entries();
            let d = self.borrow_history.deep_entries();
            let e = self.borrow_history.entries();
            assert forall|i: int, j: int| 0 <= i < j < d.len() implies <SymbolId as SortKey>::key_lt(
                d[i].0,
                d[j].0,
            ) by {
                assert(d[i].0 == e[i].0);
                assert(d[j].0 == e[j].0);
            }
        }
        let ghost d = self.borrow_history_entries();
        let ghost p = |e: (SymbolId, ActiveBorrowView)| e.1.owner == owner;
        let ghost snd = |e: (SymbolId, ActiveBorrowView)| e.1;
        let h = &self.borrow_history;
        let mut out: Vec<&ActiveBorrow> = Vec::new();
        let mut i: usize = 0;
        while i < h.len()
            invariant
                i <= d.len(),
                d == h.deep_entries(),
                d.len() == h.entries().len(),
                p == (|e: (SymbolId, ActiveBorrowView)| e.1.owner == owner),
                snd == (|e: (SymbolId, ActiveBorrowView)| e.1),
                out.deep_view() == d.take(i as int).filter(p).map_values(snd),
            decreases d.len() - i,
        {
            let b = h.value_at(i);
            let ghost before = out.deep_view();
            proof {
                assert(d[i as int].1 == b.deep_view());
                assert(d.take(i + 1) =~= d.take(i as int).push(d[i as int]));
                d.take(i as int).lemma_filter_push(d[i as int], p);
            }
            if b.owner.0 == owner.0 {
                out.push(b);
                proof {
                    let f = d.take(i as int).filter(p);
                    assert(f.push(d[i as int]).map_values(snd) =~= f.map_values(snd).push(
                        b.deep_view(),
                    ));
                    assert(out.deep_view() =~= before.push(b.deep_view()));
                }
            }
            i = i + 1;
        }
        proof {
            assert(d.take(i as int) =~= d);
        }
        out
    }

    /// Where `binding` gave its loan back, if it did.
    pub fn returned_borrow_origin(&self, binding: SymbolId) -> (r: Option<&SyntaxOrigin>)
        ensures
            match r {
                Some(o) => self.ownership().returned_borrows.contains_key(binding) && o@
                    == self.ownership().returned_borrows[binding],
                None => !self.ownership().returned_borrows.contains_key(binding),
            },
    {
        proof {
            self.lemma_state_fields();
        }
        self.returned_borrows.get(&binding)
    }
}

/// Position `m` holds the bound guard of the lowest-numbered mutex among
/// those whose lock is bound to a guard value.
pub open spec fn is_first_bound_guard(
    guards: Map<SymbolId, crate::model::ActiveMutexGuardView>,
    m: SymbolId,
) -> bool {
    &&& guards.contains_key(m)
    &&& guards[m].bound
    &&& forall|other: SymbolId|
        #[trigger] guards.contains_key(other) && guards[other].bound ==> m.0 <= other.0
}

impl TypedProgram {
    /// The lock held on `mutex`.
    pub fn active_mutex_guard(&self, mutex: SymbolId) -> (r: Option<&ActiveMutexGuard>)
        ensures
            match r {
                Some(g) => self.ownership().mutex_guards.contains_key(mutex) && g.deep_view()
                    == self.ownership().mutex_guards[mutex],
                None => !self.ownership().mutex_guards.contains_key(mutex),
            },
    {
        proof {
            self.lemma_state_fields();
        }
        self.active_mutex_guards.get(&mutex)
    }

    /// Marks the lock held on `mutex`, if any, as bound to a guard value.
    pub fn mark_guard_bound(&mut self, mutex: SymbolId)
        ensures
            final(self).ownership() == (OwnershipView {
                mutex_guards: if old(self).ownership().mutex_guards.contains_key(mutex) {
                    old(self).ownership().mutex_guards.insert(
                        mutex,
                        crate::model::ActiveMutexGuardView {
                            bound: true,
                            ..old(self).ownership().mutex_guards[mutex]
                        },
                    )
                } else {
                    old(self).ownership().mutex_guards
                },
                ..old(self).ownership()
            }),
            final(self).facts() == old(self).facts(),
            final(self).symbol_facts() == old(self).symbol_facts(),
    {
        let ghost s0 = *old(self);
        let ghost g0 = self.active_mutex_guards;
        proof {
            s0.lemma_state_fields();
        }
        match self.active_mutex_guards.remove(&mutex) {
            Some(guard) => {
                let ghost g1 = self.active_mutex_guards;
                let bound = ActiveMutexGuard { scope: guard.scope, origin: guard.origin, bound: true };
                let ghost bound_g = bound;
                self.active_mutex_guards.insert(mutex, bound);
                proof {
                    SortedMap::<SymbolId, ActiveMutexGuard>::lemma_deep_remove(&g0, &g1, mutex);
                    SortedMap::<SymbolId, ActiveMutexGuard>::lemma_deep_insert(
                        &g1,
                        &self.active_mutex_guards,
                        mutex,
                        bound_g,
                    );
                    self.lemma_state_fields();
                    assert(self.active_mutex_guards.deep_view() =~= g0.deep_view().insert(
                        mutex,
                        crate::model::ActiveMutexGuardView { bound: true, ..g0.deep_view()[mutex] },
                    ));
                    assert(self.ownership() =~= (OwnershipView {
                        mutex_guards: self.active_mutex_guards.deep_view(),
                        ..s0.ownership()
                    }));
                }
            },
            None => {
                proof {
                    SortedMap::<SymbolId, ActiveMutexGuard>::lemma_deep_remove(
                        &g0,
                        &self.active_mutex_guards,
                        mutex,
                    );
                    self.lemma_state_fields();
                    assert(self.active_mutex_guards.deep_view() =~= g0.deep_view());
                    assert(self.ownership() =~= s0.ownership());
                }
            },
        }
    }

    /// The lock bound to a guard value on the lowest-numbered mutex, if any
    /// lock is so bound.
    pub fn active_bound_guard(&self) -> (r: Option<&ActiveMutexGuard>)
        ensures
            match r {
                Some(g) => exists|m: SymbolId|
                    is_first_bound_guard(self.ownership().mutex_guards, m) && g.deep_view()
                        == self.ownership().mutex_guards[m],
                None => forall|m: SymbolId|
                    #[trigger] self.ownership().mutex_guards.contains_key(m)
                        ==> !self.ownership().mutex_guards[m].bound,
            },
    {
        let guards = &self.active_mutex_guards;
        let ghost e = guards.entries();
        let ghost gm = guards.deep_view();
        guards.is_well_formed();
        proof {
            self.lemma_state_fields();
        }
        let mut i: usize = 0;
        while i < guards.len()
            invariant
                i <= e.len(),
                e == guards.entries(),
                guards.wf(),
                gm == guards.deep_view(),
                gm == self.ownership().mutex_guards,
                forall|j: int| 0 <= j < i ==> !(#[trigger] e[j]).1.bound,
            decreases e.len() - i,
        {
            if guards.value_at(i).bound {
                let m = *guards.key_at(i);
                proof {
                    crate::sorted_map::lemma_key_position::<SymbolId, ActiveMutexGuard>(
                        e,
                        i as int,
                    );
                    assert forall|other: SymbolId|
                        #[trigger] gm.contains_key(other) && gm[other].bound implies m.0
                        <= other.0 by {
                        let q = crate::sorted_map::seq_key_index(e, other);
                        crate::sorted_map::lemma_key_position::<SymbolId, ActiveMutexGuard>(e, q);
                        if q < i {
                            assert(!e[q].1.bound);
                        } else if q > i {
                            assert(<SymbolId as SortKey>::key_lt(e[i as int].0, e[q].0));
                        }
                    }
                    assert(is_first_bound_guard(gm, m));
                    assert(guards.as_map()[m] == e[i as int].1);
                }
                let g = guards.value_at(i);
                proof {
                    assert(g.deep_view() == gm[m]);
                }
                return Some(g);
            }
            i = i + 1;
        }
        proof {
            assert forall|m: SymbolId| #[trigger] gm.contains_key(m) implies !gm[m].bound by {
                let q = crate::sorted_map::seq_key_index(e, m);
                crate::sorted_map::lemma_key_position::<SymbolId, ActiveMutexGuard>(e, q);
                assert(!e[q].1.bound);
            }
        }
        None
    }

    /// Takes the lock on `mutex` with `guard` unless it is already held;
    /// returns the held lock, leaving the state as it was.
    pub fn register_mutex_guard(&mut self, mutex: SymbolId, guard: ActiveMutexGuard) -> (r: Option<
        ActiveMutexGuard,
    >)
        ensures
            match r {
                Some(held) => old(self).ownership().mutex_guards.contains_key(mutex)
                    && held.deep_view() == old(self).ownership().mutex_guards[mutex]
                    && final(self).ownership() == old(self).ownership(),
                None => !old(self).ownership().mutex_guards.contains_key(mutex)
                    && final(self).ownership() == (OwnershipView {
                    mutex_guards: old(self).ownership().mutex_guards.insert(
                        mutex,
                        guard.deep_view(),
                    ),
                    ..old(self).ownership()
                }),
            },
            final(self).facts() == old(self).facts(),
            final(self).symbol_facts() == old(self).symbol_facts(),
    {
        let ghost s0 = *old(self);
        proof {
            s0.lemma_state_fields();
        }
        match self.active_mutex_guards.get(&mutex) {
            Some(active) => {
                return Some(active.duplicate());
            },
            None => {},
        }
        let ghost g0 = self.active_mutex_guards;
        let ghost guard_g = guard;
        self.active_mutex_guards.insert(mutex, guard);
        proof {
            SortedMap::<SymbolId, ActiveMutexGuard>::lemma_deep_insert(
                &g0,
                &self.active_mutex_guards,
                mutex,
                guard_g,
            );
            self.lemma_state_fields();
            assert(self.ownership() =~= (OwnershipView {
                mutex_guards: s0.ownership().mutex_guards.insert(mutex, guard_g.deep_view()),
                ..s0.ownership()
            }));
        }
        None
    }

    /// Releases the lock on `mutex` when it was taken in `scope`, returning
    /// it; otherwise nothing changes.
    pub fn release_mutex_guard(&mut self, mutex: SymbolId, scope: ScopeId) -> (r: Option<
        ActiveMutexGuard,
    >)
        ensures
            match r {
                Some(g) => old(self).ownership().mutex_guards.contains_key(mutex)
                    && old(self).ownership().mutex_guards[mutex].scope == scope && g.deep_view()
                    == old(self).ownership().mutex_guards[mutex] && final(self).ownership() == (
                OwnershipView {
                    mutex_guards: old(self).ownership().mutex_guards.remove(mutex),
                    ..old(self).ownership()
                }),
                None => !(old(self).ownership().mutex_guards.contains_key(mutex)
                    && old(self).ownership().mutex_guards[mutex].scope == scope)
                    && final(self).ownership() == old(self).ownership(),
            },
            final(self).facts() == old(self).facts(),
            final(self).symbol_facts() == old(self).symbol_facts(),
    {
        let ghost s0 = *old(self);
        proof {
            s0.lemma_state_fields();
        }
        match self.active_mutex_guards.get(&mutex) {
            Some(guard) => {
                if guard.scope.0 != scope.0 {
                    return None;
                }
            },
            None => {
                return None;
            },
        }
        let ghost g0 = self.active_mutex_guards;
        let r = self.active_mutex_guards.remove(&mutex);
        proof {
            SortedMap::<SymbolId, ActiveMutexGuard>::lemma_deep_remove(
                &g0,
                &self.active_mutex_guards,
                mutex,
            );
            self.lemma_state_fields();
            assert(self.ownership() =~= (OwnershipView {
                mutex_guards: s0.ownership().mutex_guards.remove(mutex),
                ..s0.ownership()
            }));
        }
        r
    }

    /// Releases every lock taken in `scope`.
    pub fn release_mutex_guards_in_scope(&mut self, scope: ScopeId)
        ensures
            final(self).ownership() == (OwnershipView {
                mutex_guards: old(self).ownership().mutex_guards.remove_keys(
                    Set::new(
                        |m: SymbolId|
                            old(self).ownership().mutex_guards.contains_key(m)
                                && old(self).ownership().mutex_guards[m].scope == scope,
                    ),
                ),
                ..old(self).ownership()
            }),
            final(self).facts() == old(self).facts(),
            final(self).symbol_facts() == old(self).symbol_facts(),
    {
        let ghost s0 = *old(self);
        let guards = &self.active_mutex_guards;
        let ghost e = guards.entries();
        let ghost p = |entry: (SymbolId, ActiveMutexGuard)| entry.1.scope == scope;
        guards.is_well_formed();
        let mut doomed: Vec<SymbolId> = Vec::new();
        let mut i: usize = 0;
        while i < guards.len()
            invariant
                i <= e.len(),
                e == guards.entries(),
                p == (|entry: (SymbolId, ActiveMutexGuard)| entry.1.scope == scope),
                doomed@.to_set() == crate::sorted_map::keys_where(e, i as int, p),
            decreases e.len() - i,
        {
            proof {
                crate::sorted_map::lemma_keys_where_step(e, i as int, p);
            }
            if guards.value_at(i).scope.0 == scope.0 {
                let k = *guards.key_at(i);
                proof {
                    doomed@.lemma_push_to_set_commute(k);
                }
                doomed.push(k);
            }
            i = i + 1;
        }
        let ghost gone = doomed@.to_set();
        proof {
            crate::sorted_map::lemma_keys_where_all::<SymbolId, ActiveMutexGuard>(e, p);
            s0.lemma_state_fields();
        }
        let ghost g0 = self.active_mutex_guards;
        self.active_mutex_guards.remove_keys(&doomed);
        proof {
            assert(crate::sorted_map::key_views(doomed@) =~= doomed@);
            SortedMap::<SymbolId, ActiveMutexGuard>::lemma_deep_remove_keys(
                &g0,
                &self.active_mutex_guards,
                gone,
            );
            self.lemma_state_fields();
            let want = Set::new(
                |m: SymbolId|
                    s0.ownership().mutex_guards.contains_key(m)
                        && s0.ownership().mutex_guards[m].scope == scope,
            );
            assert(gone =~= want);
            assert(self.ownership() =~= (OwnershipView {
                mutex_guards: s0.ownership().mutex_guards.remove_keys(want),
                ..s0.ownership()
            }));
        }
    }
}

/// Filtering a sequence whose every element passes keeps it whole.
pub proof fn lemma_filter_keeps_all<A>(s: Seq<A>, p: spec_fn(A) -> bool)
    requires
        forall|i: int| 0 <= i < s.len() ==> p(#[trigger] s[i]),
    ensures
        s.filter(p) == s,
    decreases s.len(),
{
    if s.len() > 0 {
        let init = s.drop_last();
        assert forall|i: int| 0 <= i < init.len() implies p(#[trigger] init[i]) by {
            assert(init[i] == s[i]);
        }
        lemma_filter_keeps_all(init, p);
        init.lemma_filter_push(s.last(), p);
        assert(init.push(s.last()) =~= s);
    }
}

/// Giving back a loan just taken, by a binding that held no other loan,
/// leaves every owner's loans as they were before the loan was taken.
pub proof fn law_give_back_undoes_loan(
    active: Map<SymbolId, Seq<ActiveBorrowView>>,
    borrow: ActiveBorrowView,
)
    requires
        loans_well_formed(active),
        forall|o: SymbolId|
            #[trigger] active.contains_key(o) ==> !held_by_any(active[o], set![borrow.binding]),
    ensures
        loans_ended(
            active.insert(borrow.owner, loans_on(active, borrow.owner).push(borrow)),
            set![borrow.binding],
        ) == active,
{
    let gone = set![borrow.binding];
    let loans = loans_on(active, borrow.owner);
    let taken = active.insert(borrow.owner, loans.push(borrow));
    let after = loans_ended(taken, gone);
    let keep = |b: ActiveBorrowView| !gone.contains(b.binding);
    assert(taken[borrow.owner][loans.len() as int] == borrow);
    assert(held_by_any(taken[borrow.owner], gone));
    assert forall|i: int| 0 <= i < loans.len() implies keep(#[trigger] loans[i]) by {
        if !keep(loans[i]) {
            assert(active.contains_key(borrow.owner));
            assert(held_by_any(active[borrow.owner], gone));
        }
    }
    lemma_filter_keeps_all(loans, keep);
    loans.lemma_filter_push(borrow, keep);
    assert(loans_kept(taken[borrow.owner], gone) == loans);
    assert forall|o: SymbolId| #[trigger] after.contains_key(o) == active.contains_key(o) by {
        if o == borrow.owner && !active.contains_key(o) {
            assert(loans.len() == 0);
        }
    }
    assert(after =~= active);
}

/// Releasing a lock in the scope it was taken in, after taking it on a
/// mutex that held none, leaves the locks as they were.
pub proof fn law_release_undoes_lock(
    guards: Map<SymbolId, crate::model::ActiveMutexGuardView>,
    mutex: SymbolId,
    guard: crate::model::ActiveMutexGuardView,
)
    requires
        !guards.contains_key(mutex),
    ensures
        guards.insert(mutex, guard).contains_key(mutex),
        guards.insert(mutex, guard)[mutex].scope == guard.scope,
        guards.insert(mutex, guard).remove(mutex) == guards,
{
    assert(guards.insert(mutex, guard).remove(mutex) =~= guards);
}

/// Whether a mutable loan may be taken from `symbol`: it was declared
/// mutable or as a mutex, or it is itself a mutable loan, which reborrows.
pub open spec fn allows_mutable_borrow(
    facts: FactsView,
    symbols: Map<SymbolId, TypedSymbol>,
    symbol: SymbolId,
) -> bool {
    symbols.contains_key(symbol) && {
        let s = symbols[symbol];
        s.is_mutable || s.is_mutex || match s.declared_type {
            Some(t) => match type_at(facts, t) {
                Some(CheckedTypeView::Borrowed { mutable, .. }) => mutable,
                _ => false,
            },
            None => false,
        }
    }
}

/// Whether a mutable loan may be taken from `symbol`.
pub fn symbol_allows_mutable_borrow(typed: &TypedProgram, symbol: SymbolId) -> (r: bool)
    ensures
        r == allows_mutable_borrow(typed.facts(), typed.symbol_facts(), symbol),
{
    proof {
        typed.lemma_state_fields();
    }
    match typed.typed_symbol(symbol) {
        Some(s) => s.is_mutable || s.is_mutex || match s.declared_type {
            Some(t) => match typed.type_table().get(t) {
                Some(CheckedType::Borrowed { mutable, .. }) => *mutable,
                _ => false,
            },
            None => false,
        },
        None => false,
    }
}

} // verus!
