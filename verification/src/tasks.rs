//! Shared loans held by spawned tasks and local closures, closures with
//! borrowed captures, and the scope-bound lists they and deferred reads are
//! kept in.
use crate::ids::{ScopeId, SymbolId};
use crate::model::{
    DeferredBindingUse, DeferredBindingUseView, RecoverableEventualObligation,
    RecoverableEventualObligationView, TaskBorrow, TaskBorrowView, TypedProgram,
};
use crate::ownership::OwnershipView;
use crate::sorted_map::{Duplicate, SortKey, SortedMap};
use vstd::prelude::*;

verus! {

/// An entry registered in a scope and dropped when that scope ends.
pub trait Scoped: Duplicate {
    /// The scope an entry with this value was registered in.
    spec fn scope_of_view(v: Self::V) -> ScopeId;

    /// The scope the entry was registered in.
    fn scope(&self) -> (r: ScopeId)
        ensures
            r == Self::scope_of_view(self.deep_view()),
    ;
}

impl Scoped for DeferredBindingUse {
    open spec fn scope_of_view(v: DeferredBindingUseView) -> ScopeId {
        v.scope
    }

    fn scope(&self) -> (r: ScopeId) {
        self.scope
    }
}

impl Scoped for TaskBorrow {
    open spec fn scope_of_view(v: TaskBorrowView) -> ScopeId {
        v.scope
    }

    fn scope(&self) -> (r: ScopeId) {
        self.scope
    }
}

/// Whether an entry was registered outside `scope`.
pub open spec fn registered_outside<T: Scoped>(scope: ScopeId) -> spec_fn(T::V) -> bool {
    |v: T::V| T::scope_of_view(v) != scope
}

/// `entries`, in order, without those registered in `scope`.
pub open spec fn outside_scope<T: Scoped>(entries: Seq<T::V>, scope: ScopeId) -> Seq<T::V> {
    entries.filter(registered_outside::<T>(scope))
}

/// `lists` with the entries registered in `scope` dropped from each list,
/// among the keys in `done`; a list left empty disappears.
pub open spec fn lists_outside_scope_among<T: Scoped>(
    lists: Map<SymbolId, Seq<T::V>>,
    scope: ScopeId,
    done: Seq<SymbolId>,
) -> Map<SymbolId, Seq<T::V>> {
    Map::new(
        |k: SymbolId|
            lists.contains_key(k) && (done.contains(k) ==> outside_scope::<T>(lists[k], scope).len()
                > 0),
        |k: SymbolId|
            if done.contains(k) {
                outside_scope::<T>(lists[k], scope)
            } else {
                lists[k]
            },
    )
}

/// `lists` with the entries registered in `scope` dropped from each list;
/// a list left empty disappears.
pub open spec fn lists_outside_scope<T: Scoped>(lists: Map<SymbolId, Seq<T::V>>, scope: ScopeId) -> Map<
    SymbolId,
    Seq<T::V>,
> {
    Map::new(
        |k: SymbolId| lists.contains_key(k) && outside_scope::<T>(lists[k], scope).len() > 0,
        |k: SymbolId| outside_scope::<T>(lists[k], scope),
    )
}

/// Copies of the entries of `list`, in order, not registered in `scope`.
fn keep_outside_scope<T: Scoped>(list: &Vec<T>, scope: ScopeId) -> (r: Vec<T>)
    ensures
        r.deep_view() == outside_scope::<T>(list.deep_view(), scope),
{
    let ghost all = list.deep_view();
    let ghost keep = registered_outside::<T>(scope);
    let mut out: Vec<T> = Vec::new();
    let mut i: usize = 0;
    while i < list.len()
        invariant
            i <= list@.len(),
            all == list.deep_view(),
            keep == registered_outside::<T>(scope),
            out.deep_view() == all.take(i as int).filter(keep),
        decreases list@.len() - i,
    {
        let ghost before = out.deep_view();
        proof {
            assert(all.take(i + 1) =~= all.take(i as int).push(all[i as int]));
            all.take(i as int).lemma_filter_push(all[i as int], keep);
        }
        if list[i].scope().0 != scope.0 {
            out.push(list[i].duplicate());
            proof {
                assert(out.deep_view() =~= before.push(all[i as int]));
            }
        }
        i = i + 1;
    }
    proof {
        assert(all.take(i as int) =~= all);
    }
    out
}

/// Drops the entries registered in `scope` from every list of `lists`,
/// and the lists left empty.
fn retain_outside_scope<T: Scoped>(lists: &mut SortedMap<SymbolId, Vec<T>>, scope: ScopeId)
    ensures
        final(lists).deep_view() == lists_outside_scope::<T>(old(lists).deep_view(), scope),
{
    let ghost start = lists.deep_view();
    let keys = lists.keys();
    let ghost e = lists.entries();
    proof {
        assert(keys@ =~= crate::sorted_map::key_views(keys@));
        assert forall|i: int, k: int| 0 <= i < k < keys@.len() implies keys@[i] != keys@[k] by {
            assert(keys@[i] == e[i].0);
            assert(keys@[k] == e[k].0);
            assert(<SymbolId as SortKey>::key_lt(e[i].0, e[k].0));
        }
        assert forall|o: SymbolId| start.contains_key(o) <==> keys@.contains(o) by {
            if start.contains_key(o) {
                let p = crate::sorted_map::seq_key_index(e, o);
                assert(keys@[p] == e[p].0);
            }
            if keys@.contains(o) {
                let p = choose|p: int| 0 <= p < keys@.len() && keys@[p] == o;
                assert(keys@[p] == e[p].0);
                crate::sorted_map::lemma_key_position::<SymbolId, Vec<T>>(e, p);
            }
        }
        assert(lists.deep_view() =~= lists_outside_scope_among::<T>(start, scope, keys@.take(0)));
    }
    let mut j: usize = 0;
    while j < keys.len()
        invariant
            j <= keys@.len(),
            forall|i: int, k: int| 0 <= i < k < keys@.len() ==> keys@[i] != keys@[k],
            forall|o: SymbolId| start.contains_key(o) <==> keys@.contains(o),
            lists.deep_view() == lists_outside_scope_among::<T>(start, scope, keys@.take(j as int)),
        decreases keys@.len() - j,
    {
        let key = keys[j];
        let ghost cur = *lists;
        let ghost before = keys@.take(j as int);
        let ghost after = keys@.take(j + 1);
        proof {
            assert(after =~= before.push(key));
            assert forall|o: SymbolId| #[trigger] after.contains(o) <==> (before.contains(o) || o
                == key) by {
                if after.contains(o) {
                    let p = choose|p: int| 0 <= p < after.len() && after[p] == o;
                    if p < j {
                        assert(before[p] == o);
                    }
                }
                if before.contains(o) {
                    let p = choose|p: int| 0 <= p < before.len() && before[p] == o;
                    assert(after[p] == o);
                }
                if o == key {
                    assert(after[j as int] == o);
                }
            }
            if before.contains(key) {
                let p = choose|p: int| 0 <= p < before.len() && before[p] == key;
                assert(keys@[p] == keys@[j as int]);
            }
            assert(keys@.contains(key));
            assert(cur.deep_view()[key] == start[key]);
        }
        let kept = match lists.get(&key) {
            Some(list) => keep_outside_scope(list, scope),
            None => Vec::new(),
        };
        if kept.len() > 0 {
            let ghost kept_g = kept;
            lists.insert(key, kept);
            proof {
                SortedMap::<SymbolId, Vec<T>>::lemma_deep_insert(&cur, &*lists, key, kept_g);
            }
        } else {
            lists.remove(&key);
            proof {
                SortedMap::<SymbolId, Vec<T>>::lemma_deep_remove(&cur, &*lists, key);
            }
        }
        proof {
            let target = lists_outside_scope_among::<T>(start, scope, after);
            let now = lists.deep_view();
            assert forall|o: SymbolId| o != key implies #[trigger] now.contains_key(o)
                == target.contains_key(o) && (now.contains_key(o) ==> now[o] == target[o]) by {
                assert(after.contains(o) == before.contains(o));
            }
            assert(now =~= target);
        }
        j = j + 1;
    }
    proof {
        assert(keys@.take(j as int) =~= keys@);
        assert(lists.deep_view() =~= lists_outside_scope::<T>(start, scope));
    }
}

impl TypedProgram {
    /// Drops the deferred reads registered in `scope` as it ends.
    pub fn release_deferred_binding_uses_in_scope(&mut self, scope: ScopeId)
        ensures
            final(self).ownership() == (OwnershipView {
                deferred_uses: lists_outside_scope::<DeferredBindingUse>(
                    old(self).ownership().deferred_uses,
                    scope,
                ),
                ..old(self).ownership()
            }),
            final(self).facts() == old(self).facts(),
            final(self).symbol_facts() == old(self).symbol_facts(),
    {
        let ghost s0 = *old(self);
        retain_outside_scope(&mut self.deferred_binding_uses, scope);
        proof {
            s0.lemma_state_fields();
            self.lemma_state_fields();
            assert(self.ownership() =~= (OwnershipView {
                deferred_uses: lists_outside_scope::<DeferredBindingUse>(
                    s0.ownership().deferred_uses,
                    scope,
                ),
                ..s0.ownership()
            }));
        }
    }

    /// Records that a spawned task or local closure holds `task_borrow` on
    /// `symbol`, unless the same loan is already recorded.
    pub fn register_task_borrow(&mut self, symbol: SymbolId, task_borrow: TaskBorrow)
        ensures
            final(self).ownership() == (OwnershipView {
                task_borrows: {
                    let t = old(self).ownership().task_borrows;
                    let loans = if t.contains_key(symbol) {
                        t[symbol]
                    } else {
                        Seq::empty()
                    };
                    if loans.contains(task_borrow.deep_view()) {
                        t.insert(symbol, loans)
                    } else {
                        t.insert(symbol, loans.push(task_borrow.deep_view()))
                    }
                },
                ..old(self).ownership()
            }),
            final(self).facts() == old(self).facts(),
            final(self).symbol_facts() == old(self).symbol_facts(),
    {
        let ghost s0 = *old(self);
        let ghost t = s0.task_borrowed_bindings.deep_view();
        let ghost tv = task_borrow.deep_view();
        let removed = self.task_borrowed_bindings.remove(&symbol);
        let ghost after_remove = self.task_borrowed_bindings;
        proof {
            SortedMap::<SymbolId, Vec<TaskBorrow>>::lemma_deep_remove(
                &s0.task_borrowed_bindings,
                &after_remove,
                symbol,
            );
        }
        let mut loans = match removed {
            Some(l) => l,
            None => Vec::new(),
        };
        let ghost before = loans.deep_view();
        proof {
            assert(before == (if t.contains_key(symbol) {
                t[symbol]
            } else {
                Seq::<TaskBorrowView>::empty()
            }));
        }
        let mut found = false;
        let mut i: usize = 0;
        while i < loans.len()
            invariant
                i <= loans@.len(),
                loans.deep_view() == before,
                tv == task_borrow.deep_view(),
                found == (exists|j: int| 0 <= j < i && before[j] == tv),
            decreases loans@.len() - i,
        {
            let same_kind = match (loans[i].kind, task_borrow.kind) {
                (crate::model::TaskBorrowKind::SpawnTask, crate::model::TaskBorrowKind::SpawnTask) => true,
                (
                    crate::model::TaskBorrowKind::LocalClosure,
                    crate::model::TaskBorrowKind::LocalClosure,
                ) => true,
                _ => false,
            };
            if loans[i].scope.0 == task_borrow.scope.0 && same_kind && loans[i].origin.same_as(
                &task_borrow.origin,
            ) {
                found = true;
            }
            proof {
                assert(before[i as int] == loans@[i as int].deep_view());
            }
            i = i + 1;
        }
        if !found {
            loans.push(task_borrow);
        }
        let ghost grown = loans.deep_view();
        proof {
            if found {
                assert(before.contains(tv));
                assert(grown == before);
            } else {
                assert(!before.contains(tv));
                assert(grown =~= before.push(tv));
            }
        }
        let ghost loans_g = loans;
        self.task_borrowed_bindings.insert(symbol, loans);
        proof {
            SortedMap::<SymbolId, Vec<TaskBorrow>>::lemma_deep_insert(
                &after_remove,
                &self.task_borrowed_bindings,
                symbol,
                loans_g,
            );
            s0.lemma_state_fields();
            self.lemma_state_fields();
            assert(self.task_borrowed_bindings.deep_view() =~= t.insert(symbol, grown));
            assert(self.ownership() =~= (OwnershipView {
                task_borrows: t.insert(symbol, grown),
                ..s0.ownership()
            }));
        }
    }

    /// The first loan a spawned task or local closure holds on `symbol`.
    pub fn first_task_borrow(&self, symbol: SymbolId) -> (r: Option<&TaskBorrow>)
        ensures
            match r {
                Some(b) => self.ownership().task_borrows.contains_key(symbol)
                    && self.ownership().task_borrows[symbol].len() > 0 && b.deep_view()
                    == self.ownership().task_borrows[symbol][0],
                None => !self.ownership().task_borrows.contains_key(symbol)
                    || self.ownership().task_borrows[symbol].len() == 0,
            },
    {
        proof {
            self.lemma_state_fields();
        }
        match self.task_borrowed_bindings.get(&symbol) {
            Some(loans) => {
                if loans.len() > 0 {
                    Some(&loans[0])
                } else {
                    None
                }
            },
            None => None,
        }
    }

    /// Drops the task and closure loans registered in `scope` as it ends.
    pub fn release_task_borrows_in_scope(&mut self, scope: ScopeId)
        ensures
            final(self).ownership() == (OwnershipView {
                task_borrows: lists_outside_scope::<TaskBorrow>(
                    old(self).ownership().task_borrows,
                    scope,
                ),
                ..old(self).ownership()
            }),
            final(self).facts() == old(self).facts(),
            final(self).symbol_facts() == old(self).symbol_facts(),
    {
        let ghost s0 = *old(self);
        retain_outside_scope(&mut self.task_borrowed_bindings, scope);
        proof {
            s0.lemma_state_fields();
            self.lemma_state_fields();
            assert(self.ownership() =~= (OwnershipView {
                task_borrows: lists_outside_scope::<TaskBorrow>(s0.ownership().task_borrows, scope),
                ..s0.ownership()
            }));
        }
    }

    /// Marks `symbol` as a closure value holding borrowed captures, which
    /// cannot escape the scope its loans are tied to.
    pub fn mark_bor_env_closure(&mut self, symbol: SymbolId)
        ensures
            final(self).ownership() == (OwnershipView {
                bor_env_closures: old(self).ownership().bor_env_closures.insert(symbol),
                ..old(self).ownership()
            }),
            final(self).facts() == old(self).facts(),
            final(self).symbol_facts() == old(self).symbol_facts(),
    {
        let ghost s0 = *old(self);
        let ghost c0 = self.bor_env_closures;
        self.bor_env_closures.insert(symbol, ());
        proof {
            SortedMap::<SymbolId, ()>::lemma_deep_insert(&c0, &self.bor_env_closures, symbol, ());
            s0.lemma_state_fields();
            self.lemma_state_fields();
            assert(self.ownership() =~= (OwnershipView {
                bor_env_closures: s0.ownership().bor_env_closures.insert(symbol),
                ..s0.ownership()
            }));
        }
    }

    /// Whether `symbol` is a closure value holding borrowed captures.
    pub fn is_bor_env_closure(&self, symbol: SymbolId) -> (r: bool)
        ensures
            r == self.ownership().bor_env_closures.contains(symbol),
    {
        proof {
            self.lemma_state_fields();
        }
        self.bor_env_closures.contains_key(&symbol)
    }

    /// The outstanding recoverable-eventual obligations with their
    /// bindings, by binding in increasing order.
    pub closed spec fn obligation_entries(&self) -> Seq<(SymbolId, RecoverableEventualObligation)> {
        self.recoverable_eventual_obligations.entries()
    }

    /// Every outstanding recoverable-eventual obligation with its binding,
    /// by binding in increasing order.
    pub fn recoverable_eventual_obligations(&self) -> (r: Vec<(SymbolId, &RecoverableEventualObligation)>)
        ensures
            r@.len() == self.obligation_entries().len(),
            forall|i: int|
                0 <= i < r@.len() ==> (#[trigger] r@[i]).0 == self.obligation_entries()[i].0
                    && *r@[i].1 == self.obligation_entries()[i].1,
            r@.len() == self.ownership().obligations.dom().len(),
            forall|i: int, j: int| 0 <= i < j < r@.len() ==> r@[i].0.0 < r@[j].0.0,
            forall|i: int|
                0 <= i < r@.len() ==> self.ownership().obligations.contains_key(#[trigger] r@[i].0)
                    && r@[i].1.deep_view() == self.ownership().obligations[r@[i].0],
            forall|s: SymbolId|
                #[trigger] self.ownership().obligations.contains_key(s) ==> exists|i: int|
                    0 <= i < r@.len() && r@[i].0 == s,
    {
        let m = &self.recoverable_eventual_obligations;
        m.is_well_formed();
        let ghost e = m.entries();
        let ghost d = m.deep_view();
        proof {
            self.lemma_state_fields();
        }
        let mut out: Vec<(SymbolId, &RecoverableEventualObligation)> = Vec::new();
        let mut i: usize = 0;
        while i < m.len()
            invariant
                i <= e.len(),
                e == m.entries(),
                d == m.deep_view(),
                m.wf(),
                out@.len() == i,
                forall|k: int| 0 <= k < i ==> (#[trigger] out@[k]).0 == e[k].0 && *out@[k].1 == e[k].1,
            decreases e.len() - i,
        {
            out.push((*m.key_at(i), m.value_at(i)));
            i = i + 1;
        }
        proof {
            assert forall|a: int, b: int| 0 <= a < b < out@.len() implies out@[a].0.0 < out@[b].0.0 by {
                assert(<SymbolId as SortKey>::key_lt(e[a].0, e[b].0));
            }
            assert forall|k: int| 0 <= k < out@.len() implies d.contains_key(#[trigger] out@[k].0)
                && out@[k].1.deep_view() == d[out@[k].0] by {
                crate::sorted_map::lemma_key_position::<SymbolId, RecoverableEventualObligation>(e, k);
            }
            assert forall|s: SymbolId| #[trigger] d.contains_key(s) implies exists|k: int|
                0 <= k < out@.len() && out@[k].0 == s by {
                let k = crate::sorted_map::seq_key_index(e, s);
                assert(out@[k].0 == s);
            }
            let keys = e.map_values(|x: (SymbolId, RecoverableEventualObligation)| x.0);
            assert(d.dom() =~= keys.to_set()) by {
                assert forall|s: SymbolId| #[trigger] d.dom().contains(s) == keys.to_set().contains(s) by {
                    if d.contains_key(s) {
                        let k = crate::sorted_map::seq_key_index(e, s);
                        assert(keys[k] == s);
                    }
                    if keys.to_set().contains(s) {
                        let k = choose|k: int| 0 <= k < keys.len() && keys[k] == s;
                        crate::sorted_map::lemma_key_position::<SymbolId, RecoverableEventualObligation>(e, k);
                    }
                }
            }
            assert forall|a: int, b: int| 0 <= a < keys.len() && 0 <= b < keys.len() && a != b implies keys[a] != keys[b] by {
                if a < b {
                    assert(<SymbolId as SortKey>::key_lt(e[a].0, e[b].0));
                } else {
                    assert(<SymbolId as SortKey>::key_lt(e[b].0, e[a].0));
                }
            }
            keys.unique_seq_to_set();
        }
        out
    }
}

/// The one scope in `scopes`, when there is exactly one.
pub fn single_scope(scopes: &SortedMap<ScopeId, ()>) -> (r: Option<ScopeId>)
    ensures
        match r {
            Some(s) => scopes.as_map().dom() == set![s],
            None => scopes.entries().len() != 1,
        },
{
    if scopes.len() == 1 {
        let only = *scopes.key_at(0);
        scopes.is_well_formed();
        proof {
            crate::sorted_map::lemma_key_position::<ScopeId, ()>(scopes.entries(), 0);
            assert forall|k: ScopeId| #[trigger] scopes.as_map().dom().contains(k) implies k == only by {
                let i = crate::sorted_map::seq_key_index(scopes.entries(), k);
                assert(0 <= i < 1);
            }
            assert(scopes.as_map().dom() =~= set![only]);
        }
        Some(only)
    } else {
        None
    }
}

} // verus!
