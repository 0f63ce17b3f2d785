//! Snapshots of the flow-sensitive ownership state at branch points, and
//! how the states at the end of the branches merge.
use crate::borrows::loans_well_formed;
use crate::ids::{SymbolId, SyntaxOrigin, SyntaxOriginView};
use crate::model::{
    ActiveBorrow, ActiveBorrowView, EventualMoveKind, OwnershipFlowState,
    RecoverableEventualObligation, RecoverableEventualObligationView, TypedProgram,
};
use crate::ownership::OwnershipView;
use crate::sorted_map::{Duplicate, SortKey, SortedMap};
use vstd::prelude::*;

verus! {

/// The flow-sensitive part of the ownership state: what a branch may change
/// and a merge combines.
pub struct FlowView {
    pub moved_bindings: Map<SymbolId, SyntaxOriginView>,
    pub moved_fields: Map<SymbolId, Map<Seq<char>, SyntaxOriginView>>,
    pub eventual_moves: Map<SymbolId, EventualMoveKind>,
    pub obligations: Map<SymbolId, RecoverableEventualObligationView>,
    pub active_borrows: Map<SymbolId, Seq<ActiveBorrowView>>,
    pub borrow_bindings: Map<SymbolId, ActiveBorrowView>,
    pub returned_borrows: Map<SymbolId, SyntaxOriginView>,
}

impl DeepView for OwnershipFlowState {
    type V = FlowView;

    closed spec fn deep_view(&self) -> FlowView {
        FlowView {
            moved_bindings: self.moved_bindings.deep_view(),
            moved_fields: self.moved_fields.deep_view(),
            eventual_moves: self.eventual_moves.deep_view(),
            obligations: self.recoverable_eventual_obligations.deep_view(),
            active_borrows: self.active_borrows.deep_view(),
            borrow_bindings: self.borrow_bindings.deep_view(),
            returned_borrows: self.returned_borrows.deep_view(),
        }
    }
}

/// The flow-sensitive part of `o`.
pub open spec fn flow_of(o: OwnershipView) -> FlowView {
    FlowView {
        moved_bindings: o.moved_bindings,
        moved_fields: o.moved_fields,
        eventual_moves: o.eventual_moves,
        obligations: o.obligations,
        active_borrows: o.active_borrows,
        borrow_bindings: o.borrow_bindings,
        returned_borrows: o.returned_borrows,
    }
}

/// `o` with its flow-sensitive part replaced by `f`.
pub open spec fn with_flow(o: OwnershipView, f: FlowView) -> OwnershipView {
    OwnershipView {
        moved_bindings: f.moved_bindings,
        moved_fields: f.moved_fields,
        eventual_moves: f.eventual_moves,
        obligations: f.obligations,
        active_borrows: f.active_borrows,
        borrow_bindings: f.borrow_bindings,
        returned_borrows: f.returned_borrows,
        ..o
    }
}

/// The views of a list of snapshots.
pub open spec fn flows_of(states: Seq<OwnershipFlowState>) -> Seq<FlowView> {
    states.map_values(|s: OwnershipFlowState| s.deep_view())
}

impl TypedProgram {
    /// A snapshot of the flow-sensitive ownership state.
    pub fn ownership_flow_state(&self) -> (r: OwnershipFlowState)
        ensures
            r.deep_view() == flow_of(self.ownership()),
    {
        proof {
            self.lemma_state_fields();
        }
        OwnershipFlowState {
            moved_bindings: self.moved_bindings.duplicate(),
            moved_fields: self.moved_fields.duplicate(),
            eventual_moves: self.eventual_moves.duplicate(),
            recoverable_eventual_obligations: self.recoverable_eventual_obligations.duplicate(),
            active_borrows: self.active_borrows.duplicate(),
            borrow_bindings: self.borrow_bindings.duplicate(),
            returned_borrows: self.returned_borrows.duplicate(),
        }
    }

    /// Puts back the flow-sensitive ownership state of a snapshot.
    pub fn restore_ownership_flow(&mut self, state: &OwnershipFlowState)
        ensures
            final(self).ownership() == with_flow(old(self).ownership(), state.deep_view()),
            final(self).facts() == old(self).facts(),
            final(self).symbol_facts() == old(self).symbol_facts(),
    {
        let ghost s0 = *old(self);
        self.moved_bindings = state.moved_bindings.duplicate();
        self.moved_fields = state.moved_fields.duplicate();
        self.eventual_moves = state.eventual_moves.duplicate();
        self.recoverable_eventual_obligations = state.recoverable_eventual_obligations.duplicate();
        self.active_borrows = state.active_borrows.duplicate();
        self.borrow_bindings = state.borrow_bindings.duplicate();
        self.returned_borrows = state.returned_borrows.duplicate();
        proof {
            s0.lemma_state_fields();
            self.lemma_state_fields();
            assert(self.ownership() =~= with_flow(s0.ownership(), state.deep_view()));
        }
    }
}

/// For each key found in any of `maps`, the value in the first map that
/// holds it.
pub open spec fn first_wins<K, V>(maps: Seq<Map<K, V>>) -> Map<K, V>
    decreases maps.len(),
{
    if maps.len() == 0 {
        Map::empty()
    } else {
        maps.last().union_prefer_right(first_wins(maps.drop_last()))
    }
}

/// The moved fields of `symbol` in `m`, none when it has no entry.
pub open spec fn fields_of(
    m: Map<SymbolId, Map<Seq<char>, SyntaxOriginView>>,
    symbol: SymbolId,
) -> Map<Seq<char>, SyntaxOriginView> {
    if m.contains_key(symbol) {
        m[symbol]
    } else {
        Map::empty()
    }
}

/// `earlier` extended by `later`, symbol by symbol and field by field; what
/// `earlier` holds wins.
pub open spec fn fields_union(
    later: Map<SymbolId, Map<Seq<char>, SyntaxOriginView>>,
    earlier: Map<SymbolId, Map<Seq<char>, SyntaxOriginView>>,
) -> Map<SymbolId, Map<Seq<char>, SyntaxOriginView>> {
    Map::new(
        |s: SymbolId| earlier.contains_key(s) || later.contains_key(s),
        |s: SymbolId| fields_of(later, s).union_prefer_right(fields_of(earlier, s)),
    )
}

/// For each symbol found in any of `maps`, its moved fields from all of
/// them; for each field, the origin in the first map that holds it.
pub open spec fn fields_first_wins(maps: Seq<Map<SymbolId, Map<Seq<char>, SyntaxOriginView>>>) -> Map<
    SymbolId,
    Map<Seq<char>, SyntaxOriginView>,
>
    decreases maps.len(),
{
    if maps.len() == 0 {
        Map::empty()
    } else {
        fields_union(maps.last(), fields_first_wins(maps.drop_last()))
    }
}

/// Whether `binding` gave its loan back on every branch.
pub open spec fn returned_on_every(branches: Seq<FlowView>, binding: SymbolId) -> bool {
    forall|i: int| 0 <= i < branches.len() ==> (#[trigger] branches[i]).returned_borrows.contains_key(binding)
}

/// Whether `binding` gave its loan back on some branch.
pub open spec fn returned_on_some(branches: Seq<FlowView>, binding: SymbolId) -> bool {
    exists|i: int| 0 <= i < branches.len() && (#[trigger] branches[i]).returned_borrows.contains_key(binding)
}

/// The loans of `loans`, in order, that were not given back on every branch.
pub open spec fn surviving_loans(loans: Seq<ActiveBorrowView>, branches: Seq<FlowView>) -> Seq<
    ActiveBorrowView,
> {
    loans.filter(|b: ActiveBorrowView| !returned_on_every(branches, b.binding))
}

/// The baseline's loans that survive the branches; an owner left with none
/// disappears.
pub open spec fn loans_after_merge(
    baseline: Map<SymbolId, Seq<ActiveBorrowView>>,
    branches: Seq<FlowView>,
) -> Map<SymbolId, Seq<ActiveBorrowView>> {
    Map::new(
        |o: SymbolId| baseline.contains_key(o) && surviving_loans(baseline[o], branches).len() > 0,
        |o: SymbolId| surviving_loans(baseline[o], branches),
    )
}

/// The baseline's borrowing bindings that gave their loan back on no branch.
pub open spec fn bindings_after_merge(
    baseline: Map<SymbolId, ActiveBorrowView>,
    branches: Seq<FlowView>,
) -> Map<SymbolId, ActiveBorrowView> {
    Map::new(
        |b: SymbolId| baseline.contains_key(b) && !returned_on_some(branches, b),
        |b: SymbolId| baseline[b],
    )
}

/// The ownership state once the branches that continue after a branch
/// point, entered with `baseline`, ended in `branches`. With no continuing
/// branch, the baseline comes back.
pub open spec fn merged(o: OwnershipView, baseline: FlowView, branches: Seq<FlowView>) -> OwnershipView {
    if branches.len() == 0 {
        with_flow(o, baseline)
    } else {
        OwnershipView {
            moved_bindings: first_wins(branches.map_values(|f: FlowView| f.moved_bindings)),
            moved_fields: fields_first_wins(branches.map_values(|f: FlowView| f.moved_fields)),
            eventual_moves: first_wins(branches.map_values(|f: FlowView| f.eventual_moves)),
            obligations: first_wins(branches.map_values(|f: FlowView| f.obligations)),
            active_borrows: loans_after_merge(baseline.active_borrows, branches),
            borrow_bindings: bindings_after_merge(baseline.borrow_bindings, branches),
            returned_borrows: first_wins(branches.map_values(|f: FlowView| f.returned_borrows)),
            ..o
        }
    }
}

/// One more map extends the first-wins union of the earlier ones.
pub proof fn lemma_first_wins_step<K, V>(maps: Seq<Map<K, V>>, i: int)
    requires
        0 <= i < maps.len(),
    ensures
        first_wins(maps.take(i + 1)) == maps[i].union_prefer_right(first_wins(maps.take(i))),
{
    assert(maps.take(i + 1).drop_last() =~= maps.take(i));
}

/// One more map of moved fields extends the merge of the earlier ones.
pub proof fn lemma_fields_first_wins_step(
    maps: Seq<Map<SymbolId, Map<Seq<char>, SyntaxOriginView>>>,
    i: int,
)
    requires
        0 <= i < maps.len(),
    ensures
        fields_first_wins(maps.take(i + 1)) == fields_union(
            maps[i],
            fields_first_wins(maps.take(i)),
        ),
{
    assert(maps.take(i + 1).drop_last() =~= maps.take(i));
}

/// Nothing added to a map leaves it as it was.
proof fn lemma_union_with_empty<K, V>(m: Map<K, V>)
    ensures
        Map::<K, V>::empty().union_prefer_right(m) == m,
{
    assert(Map::<K, V>::empty().union_prefer_right(m) =~= m);
}

/// Copies in the moved fields of `later` that `acc` lacks, symbol by symbol.
fn absorb_fields(
    acc: &mut SortedMap<SymbolId, SortedMap<String, SyntaxOrigin>>,
    later: &SortedMap<SymbolId, SortedMap<String, SyntaxOrigin>>,
)
    ensures
        final(acc).deep_view() == fields_union(later.deep_view(), old(acc).deep_view()),
{
    later.is_well_formed();
    let ghost d = later.deep_entries();
    let ghost start = acc.deep_view();
    proof {
        later.lemma_deep_entries_increasing();
        later.lemma_deep_view_from_entries();
        let first = fields_union(crate::sorted_map::seq_to_map(d.take(0)), start);
        assert(crate::sorted_map::seq_to_map(d.take(0)) =~= Map::empty());
        assert forall|s: SymbolId| #[trigger] first.contains_key(s) == start.contains_key(s) by {
            assert(!crate::sorted_map::seq_to_map(d.take(0)).contains_key(s));
        }
        assert forall|s: SymbolId| #[trigger] first.contains_key(s) implies first[s] == start[s] by {
            lemma_union_with_empty(start[s]);
        }
        assert(first =~= start);
        assert(acc.deep_view() == start);
        assert(acc.deep_view() =~= first);
    }
    let mut i: usize = 0;
    while i < later.len()
        invariant
            i <= d.len(),
            d == later.deep_entries(),
            d.len() == later.entries().len(),
            crate::sorted_map::keys_increasing::<SymbolId, Map<Seq<char>, SyntaxOriginView>>(d),
            acc.deep_view() == fields_union(
                crate::sorted_map::seq_to_map(d.take(i as int)),
                start,
            ),
        decreases d.len() - i,
    {
        let symbol = *later.key_at(i);
        let ghost prefix = crate::sorted_map::seq_to_map(d.take(i as int));
        proof {
            crate::sorted_map::lemma_prefix_map_step::<SymbolId, Map<Seq<char>, SyntaxOriginView>>(
                d,
                i as int,
            );
            assert(d[i as int].0 == symbol);
        }
        let ghost a0 = *acc;
        let removed = acc.remove(&symbol);
        let ghost a1 = *acc;
        proof {
            SortedMap::<SymbolId, SortedMap<String, SyntaxOrigin>>::lemma_deep_remove(
                &a0,
                &a1,
                symbol,
            );
        }
        let mut inner = match removed {
            Some(f) => f,
            None => SortedMap::new(),
        };
        proof {
            lemma_union_with_empty(fields_of(start, symbol));
            if a0.deep_view().contains_key(symbol) {
                assert(inner.deep_view() == a0.deep_view()[symbol]);
            } else {
                assert(inner.deep_view() =~= Map::empty());
            }
            assert(inner.deep_view() == fields_of(start, symbol));
        }
        let src = later.value_at(i);
        proof {
            assert(src.deep_view() == d[i as int].1);
        }
        inner.absorb_missing(src);
        let ghost inner_g = inner;
        acc.insert(symbol, inner);
        proof {
            SortedMap::<SymbolId, SortedMap<String, SyntaxOrigin>>::lemma_deep_insert(
                &a1,
                &*acc,
                symbol,
                inner_g,
            );
            assert(acc.deep_view() =~= fields_union(
                crate::sorted_map::seq_to_map(d.take(i + 1)),
                start,
            ));
        }
        i = i + 1;
    }
    proof {
        assert(d.take(i as int) =~= d);
    }
}

impl TypedProgram {
    /// Rebuilds `moved_bindings` as the first-wins union of the branches' own.
    fn merge_moved_bindings(&mut self, branches: &[OwnershipFlowState])
        ensures
            final(self).moved_bindings.deep_view() == first_wins(
                flows_of(branches@).map_values(|f: FlowView| f.moved_bindings),
            ),
            *final(self) == (TypedProgram { moved_bindings: final(self).moved_bindings, ..*old(self) }),
    {
        let ghost ms = flows_of(branches@).map_values(|f: FlowView| f.moved_bindings);
        self.moved_bindings = SortedMap::new();
        proof {
            assert(self.moved_bindings.deep_view() =~= first_wins(ms.take(0)));
        }
        let mut i: usize = 0;
        while i < branches.len()
            invariant
                i <= branches@.len(),
                ms == flows_of(branches@).map_values(|f: FlowView| f.moved_bindings),
                self.moved_bindings.deep_view() == first_wins(ms.take(i as int)),
                *self == (TypedProgram { moved_bindings: self.moved_bindings, ..*old(self) }),
            decreases branches@.len() - i,
        {
            proof {
                lemma_first_wins_step(ms, i as int);
                assert(ms[i as int] == branches@[i as int].moved_bindings.deep_view());
            }
            self.moved_bindings.absorb_missing(&branches[i].moved_bindings);
            i = i + 1;
        }
        proof {
            assert(ms.take(i as int) =~= ms);
        }
    }

    /// Rebuilds `eventual_moves` as the first-wins union of the branches' own.
    fn merge_eventual_moves(&mut self, branches: &[OwnershipFlowState])
        ensures
            final(self).eventual_moves.deep_view() == first_wins(
                flows_of(branches@).map_values(|f: FlowView| f.eventual_moves),
            ),
            *final(self) == (TypedProgram { eventual_moves: final(self).eventual_moves, ..*old(self) }),
    {
        let ghost ms = flows_of(branches@).map_values(|f: FlowView| f.eventual_moves);
        self.eventual_moves = SortedMap::new();
        proof {
            assert(self.eventual_moves.deep_view() =~= first_wins(ms.take(0)));
        }
        let mut i: usize = 0;
        while i < branches.len()
            invariant
                i <= branches@.len(),
                ms == flows_of(branches@).map_values(|f: FlowView| f.eventual_moves),
                self.eventual_moves.deep_view() == first_wins(ms.take(i as int)),
                *self == (TypedProgram { eventual_moves: self.eventual_moves, ..*old(self) }),
            decreases branches@.len() - i,
        {
            proof {
                lemma_first_wins_step(ms, i as int);
                assert(ms[i as int] == branches@[i as int].eventual_moves.deep_view());
            }
            self.eventual_moves.absorb_missing(&branches[i].eventual_moves);
            i = i + 1;
        }
        proof {
            assert(ms.take(i as int) =~= ms);
        }
    }

    /// Rebuilds the obligations as the first-wins union of the branches' obligations.
    fn merge_recoverable_eventual_obligations(&mut self, branches: &[OwnershipFlowState])
        ensures
            final(self).recoverable_eventual_obligations.deep_view() == first_wins(
                flows_of(branches@).map_values(|f: FlowView| f.obligations),
            ),
            *final(self) == (TypedProgram { recoverable_eventual_obligations: final(self).recoverable_eventual_obligations, ..*old(self) }),
    {
        let ghost ms = flows_of(branches@).map_values(|f: FlowView| f.obligations);
        self.recoverable_eventual_obligations = SortedMap::new();
        proof {
            assert(self.recoverable_eventual_obligations.deep_view() =~= first_wins(ms.take(0)));
        }
        let mut i: usize = 0;
        while i < branches.len()
            invariant
                i <= branches@.len(),
                ms == flows_of(branches@).map_values(|f: FlowView| f.obligations),
                self.recoverable_eventual_obligations.deep_view() == first_wins(ms.take(i as int)),
                *self == (TypedProgram { recoverable_eventual_obligations: self.recoverable_eventual_obligations, ..*old(self) }),
            decreases branches@.len() - i,
        {
            proof {
                lemma_first_wins_step(ms, i as int);
                assert(ms[i as int] == branches@[i as int].recoverable_eventual_obligations.deep_view());
            }
            self.recoverable_eventual_obligations.absorb_missing(&branches[i].recoverable_eventual_obligations);
            i = i + 1;
        }
        proof {
            assert(ms.take(i as int) =~= ms);
        }
    }

    /// Rebuilds `returned_borrows` as the first-wins union of the branches' own.
    fn merge_returned_borrows(&mut self, branches: &[OwnershipFlowState])
        ensures
            final(self).returned_borrows.deep_view() == first_wins(
                flows_of(branches@).map_values(|f: FlowView| f.returned_borrows),
            ),
            *final(self) == (TypedProgram { returned_borrows: final(self).returned_borrows, ..*old(self) }),
    {
        let ghost ms = flows_of(branches@).map_values(|f: FlowView| f.returned_borrows);
        self.returned_borrows = SortedMap::new();
        proof {
            assert(self.returned_borrows.deep_view() =~= first_wins(ms.take(0)));
        }
        let mut i: usize = 0;
        while i < branches.len()
            invariant
                i <= branches@.len(),
                ms == flows_of(branches@).map_values(|f: FlowView| f.returned_borrows),
                self.returned_borrows.deep_view() == first_wins(ms.take(i as int)),
                *self == (TypedProgram { returned_borrows: self.returned_borrows, ..*old(self) }),
            decreases branches@.len() - i,
        {
            proof {
                lemma_first_wins_step(ms, i as int);
                assert(ms[i as int] == branches@[i as int].returned_borrows.deep_view());
            }
            self.returned_borrows.absorb_missing(&branches[i].returned_borrows);
            i = i + 1;
        }
        proof {
            assert(ms.take(i as int) =~= ms);
        }
    }

    /// Rebuilds the moved fields as the merge of the branches' moved fields.
    fn merge_moved_fields(&mut self, branches: &[OwnershipFlowState])
        ensures
            final(self).moved_fields.deep_view() == fields_first_wins(
                flows_of(branches@).map_values(|f: FlowView| f.moved_fields),
            ),
            *final(self) == (TypedProgram { moved_fields: final(self).moved_fields, ..*old(self) }),
    {
        let ghost ms = flows_of(branches@).map_values(|f: FlowView| f.moved_fields);
        self.moved_fields = SortedMap::new();
        proof {
            assert(self.moved_fields.deep_view() =~= fields_first_wins(ms.take(0)));
        }
        let mut i: usize = 0;
        while i < branches.len()
            invariant
                i <= branches@.len(),
                ms == flows_of(branches@).map_values(|f: FlowView| f.moved_fields),
                self.moved_fields.deep_view() == fields_first_wins(ms.take(i as int)),
                *self == (TypedProgram { moved_fields: self.moved_fields, ..*old(self) }),
            decreases branches@.len() - i,
        {
            proof {
                lemma_fields_first_wins_step(ms, i as int);
                assert(ms[i as int] == branches@[i as int].moved_fields.deep_view());
            }
            absorb_fields(&mut self.moved_fields, &branches[i].moved_fields);
            i = i + 1;
        }
        proof {
            assert(ms.take(i as int) =~= ms);
        }
    }
}

/// Whether `binding` gave its loan back on every branch.
fn returned_on_every_branch(branches: &[OwnershipFlowState], binding: SymbolId) -> (r: bool)
    ensures
        r == returned_on_every(flows_of(branches@), binding),
{
    let ghost fl = flows_of(branches@);
    let mut i: usize = 0;
    while i < branches.len()
        invariant
            i <= branches@.len(),
            fl == flows_of(branches@),
            forall|j: int| 0 <= j < i ==> (#[trigger] fl[j]).returned_borrows.contains_key(binding),
        decreases branches@.len() - i,
    {
        proof {
            assert(fl[i as int].returned_borrows == branches@[i as int].returned_borrows.deep_view());
        }
        if !branches[i].returned_borrows.contains_key(&binding) {
            return false;
        }
        i = i + 1;
    }
    true
}

/// Whether `binding` gave its loan back on some branch.
fn returned_on_some_branch(branches: &[OwnershipFlowState], binding: SymbolId) -> (r: bool)
    ensures
        r == returned_on_some(flows_of(branches@), binding),
{
    let ghost fl = flows_of(branches@);
    let mut i: usize = 0;
    while i < branches.len()
        invariant
            i <= branches@.len(),
            fl == flows_of(branches@),
            forall|j: int| 0 <= j < i ==> !(#[trigger] fl[j]).returned_borrows.contains_key(binding),
        decreases branches@.len() - i,
    {
        proof {
            assert(fl[i as int].returned_borrows == branches@[i as int].returned_borrows.deep_view());
        }
        if branches[i].returned_borrows.contains_key(&binding) {
            return true;
        }
        i = i + 1;
    }
    false
}

/// Copies of the loans of `loans`, in order, not given back on every branch.
fn surviving(loans: &Vec<ActiveBorrow>, branches: &[OwnershipFlowState]) -> (r: Vec<ActiveBorrow>)
    ensures
        r.deep_view() == surviving_loans(loans.deep_view(), flows_of(branches@)),
{
    let ghost all = loans.deep_view();
    let ghost fl = flows_of(branches@);
    let ghost keep = |b: ActiveBorrowView| !returned_on_every(fl, b.binding);
    let mut out: Vec<ActiveBorrow> = Vec::new();
    let mut i: usize = 0;
    while i < loans.len()
        invariant
            i <= loans@.len(),
            all == loans.deep_view(),
            fl == flows_of(branches@),
            keep == (|b: ActiveBorrowView| !returned_on_every(fl, b.binding)),
            out.deep_view() == all.take(i as int).filter(keep),
        decreases loans@.len() - i,
    {
        let ghost before = out.deep_view();
        proof {
            assert(all.take(i + 1) =~= all.take(i as int).push(all[i as int]));
            all.take(i as int).lemma_filter_push(all[i as int], keep);
        }
        if !returned_on_every_branch(branches, loans[i].binding) {
            out.push(loans[i].duplicate());
            proof {
                assert(out.deep_view() =~= before.push(all[i as int]));
            }
        }
        i = i + 1;
    }
    proof {
        assert(all.take(i as int) =~= all);
    }
    out
}

impl TypedProgram {
    /// Rebuilds the live loans from the baseline's, keeping those not given
    /// back on every branch.
    fn keep_surviving_loans(&mut self, baseline: &OwnershipFlowState, branches: &[OwnershipFlowState])
        ensures
            final(self).active_borrows.deep_view() == loans_after_merge(
                baseline.deep_view().active_borrows,
                flows_of(branches@),
            ),
            *final(self) == (TypedProgram { active_borrows: final(self).active_borrows, ..*old(self) }),
    {
        let base = &baseline.active_borrows;
        base.is_well_formed();
        let ghost d = base.deep_entries();
        let ghost fl = flows_of(branches@);
        proof {
            base.lemma_deep_entries_increasing();
            base.lemma_deep_view_from_entries();
        }
        self.active_borrows = SortedMap::new();
        proof {
            assert(self.active_borrows.deep_view() =~= loans_after_merge(
                crate::sorted_map::seq_to_map(d.take(0)),
                fl,
            ));
        }
        let mut i: usize = 0;
        while i < base.len()
            invariant
                i <= d.len(),
                d == base.deep_entries(),
                d.len() == base.entries().len(),
                fl == flows_of(branches@),
                crate::sorted_map::keys_increasing::<SymbolId, Seq<ActiveBorrowView>>(d),
                self.active_borrows.deep_view() == loans_after_merge(
                    crate::sorted_map::seq_to_map(d.take(i as int)),
                    fl,
                ),
                *self == (TypedProgram { active_borrows: self.active_borrows, ..*old(self) }),
            decreases d.len() - i,
        {
            let owner = *base.key_at(i);
            let loans = base.value_at(i);
            proof {
                crate::sorted_map::lemma_prefix_map_step::<SymbolId, Seq<ActiveBorrowView>>(
                    d,
                    i as int,
                );
                assert(d[i as int].0 == owner);
                assert(d[i as int].1 == loans.deep_view());
            }
            let kept = surviving(loans, branches);
            let ghost a0 = self.active_borrows;
            if kept.len() > 0 {
                let ghost kept_g = kept;
                self.active_borrows.insert(owner, kept);
                proof {
                    SortedMap::<SymbolId, Vec<ActiveBorrow>>::lemma_deep_insert(
                        &a0,
                        &self.active_borrows,
                        owner,
                        kept_g,
                    );
                }
            }
            proof {
                assert(self.active_borrows.deep_view() =~= loans_after_merge(
                    crate::sorted_map::seq_to_map(d.take(i + 1)),
                    fl,
                ));
            }
            i = i + 1;
        }
        proof {
            assert(d.take(i as int) =~= d);
        }
    }

    /// Rebuilds the borrowing bindings from the baseline's, keeping those
    /// given back on no branch.
    fn keep_surviving_bindings(&mut self, baseline: &OwnershipFlowState, branches: &[OwnershipFlowState])
        ensures
            final(self).borrow_bindings.deep_view() == bindings_after_merge(
                baseline.deep_view().borrow_bindings,
                flows_of(branches@),
            ),
            *final(self) == (TypedProgram { borrow_bindings: final(self).borrow_bindings, ..*old(self) }),
    {
        let base = &baseline.borrow_bindings;
        base.is_well_formed();
        let ghost d = base.deep_entries();
        let ghost fl = flows_of(branches@);
        proof {
            base.lemma_deep_entries_increasing();
            base.lemma_deep_view_from_entries();
        }
        self.borrow_bindings = SortedMap::new();
        proof {
            assert(self.borrow_bindings.deep_view() =~= bindings_after_merge(
                crate::sorted_map::seq_to_map(d.take(0)),
                fl,
            ));
        }
        let mut i: usize = 0;
        while i < base.len()
            invariant
                i <= d.len(),
                d == base.deep_entries(),
                d.len() == base.entries().len(),
                fl == flows_of(branches@),
                crate::sorted_map::keys_increasing::<SymbolId, ActiveBorrowView>(d),
                self.borrow_bindings.deep_view() == bindings_after_merge(
                    crate::sorted_map::seq_to_map(d.take(i as int)),
                    fl,
                ),
                *self == (TypedProgram { borrow_bindings: self.borrow_bindings, ..*old(self) }),
            decreases d.len() - i,
        {
            let binding = *base.key_at(i);
            let borrow = base.value_at(i);
            proof {
                crate::sorted_map::lemma_prefix_map_step::<SymbolId, ActiveBorrowView>(d, i as int);
                assert(d[i as int].0 == binding);
                assert(d[i as int].1 == borrow.deep_view());
            }
            let ghost b0 = self.borrow_bindings;
            if !returned_on_some_branch(branches, binding) {
                let copy = borrow.duplicate();
                self.borrow_bindings.insert(binding, copy);
                proof {
                    SortedMap::<SymbolId, ActiveBorrow>::lemma_deep_insert(
                        &b0,
                        &self.borrow_bindings,
                        binding,
                        copy,
                    );
                }
            }
            proof {
                assert(self.borrow_bindings.deep_view() =~= bindings_after_merge(
                    crate::sorted_map::seq_to_map(d.take(i + 1)),
                    fl,
                ));
            }
            i = i + 1;
        }
        proof {
            assert(d.take(i as int) =~= d);
        }
    }
}

/// The loans surviving a merge keep the baseline's loans well formed.
pub proof fn lemma_surviving_loans_well_formed(
    baseline: Map<SymbolId, Seq<ActiveBorrowView>>,
    branches: Seq<FlowView>,
)
    requires
        loans_well_formed(baseline),
    ensures
        loans_well_formed(loans_after_merge(baseline, branches)),
{
    let after = loans_after_merge(baseline, branches);
    assert forall|o: SymbolId| #[trigger] after.contains_key(o) implies after[o].len() > 0
        && forall|i: int|
        0 <= i < after[o].len() && (#[trigger] after[o][i]).mutable ==> after[o].len() == 1 by {
        let kept = after[o];
        let keep = |b: ActiveBorrowView| !returned_on_every(branches, b.binding);
        baseline[o].lemma_filter_len(keep);
        assert forall|i: int| 0 <= i < kept.len() && (#[trigger] kept[i]).mutable implies kept.len()
            == 1 by {
            assert(kept.contains(kept[i]));
            baseline[o].lemma_filter_contains_rev(keep, kept[i]);
            let k = choose|k: int| 0 <= k < baseline[o].len() && baseline[o][k] == kept[i];
            assert(baseline[o][k].mutable);
        }
    }
}

impl TypedProgram {
    /// Merges the ownership states at the end of the branches that continue
    /// after a branch point entered with `baseline`. Moves, consumed
    /// eventuals, outstanding obligations and give-backs of any branch hold
    /// after the merge, first branch first; a baseline loan stays live
    /// unless given back on every branch, and a borrowing binding stays
    /// live only if given back on none. With no continuing branch the
    /// baseline comes back.
    pub fn merge_ownership_flows(&mut self, baseline: &OwnershipFlowState, branches: &[OwnershipFlowState])
        ensures
            final(self).ownership() == merged(
                old(self).ownership(),
                baseline.deep_view(),
                flows_of(branches@),
            ),
            loans_well_formed(baseline.deep_view().active_borrows) ==> loans_well_formed(
                final(self).ownership().active_borrows,
            ),
            final(self).facts() == old(self).facts(),
            final(self).symbol_facts() == old(self).symbol_facts(),
    {
        let ghost s0 = *old(self);
        if branches.len() == 0 {
            self.restore_ownership_flow(baseline);
            return;
        }
        self.merge_moved_bindings(branches);
        self.merge_moved_fields(branches);
        self.merge_eventual_moves(branches);
        self.merge_recoverable_eventual_obligations(branches);
        self.merge_returned_borrows(branches);
        self.keep_surviving_loans(baseline, branches);
        self.keep_surviving_bindings(baseline, branches);
        proof {
            s0.lemma_state_fields();
            self.lemma_state_fields();
            assert(self.ownership() =~= merged(s0.ownership(), baseline.deep_view(), flows_of(branches@)));
            if loans_well_formed(baseline.deep_view().active_borrows) {
                lemma_surviving_loans_well_formed(
                    baseline.deep_view().active_borrows,
                    flows_of(branches@),
                );
            }
        }
    }
}

/// A key is in the first-wins union of `maps` exactly when some map holds
/// it, with the value of the first map that does.
pub proof fn lemma_first_wins_holds<K, V>(maps: Seq<Map<K, V>>, k: K)
    ensures
        first_wins(maps).contains_key(k) <==> exists|i: int|
            0 <= i < maps.len() && (#[trigger] maps[i]).contains_key(k),
        forall|i: int|
            0 <= i < maps.len() && (#[trigger] maps[i]).contains_key(k) && (forall|j: int|
                0 <= j < i ==> !(#[trigger] maps[j]).contains_key(k)) ==> first_wins(maps)[k]
                == maps[i][k],
    decreases maps.len(),
{
    if maps.len() > 0 {
        let rest = maps.drop_last();
        lemma_first_wins_holds(rest, k);
        assert forall|i: int| 0 <= i < maps.len() && (#[trigger] maps[i]).contains_key(k) implies first_wins(
            maps,
        ).contains_key(k) by {
            if i < maps.len() - 1 {
                assert(rest[i] == maps[i]);
            }
        }
        if first_wins(maps).contains_key(k) {
            if !first_wins(rest).contains_key(k) {
                assert(maps[maps.len() - 1].contains_key(k));
            } else {
                let i = choose|i: int| 0 <= i < rest.len() && (#[trigger] rest[i]).contains_key(k);
                assert(maps[i] == rest[i]);
            }
        }
        assert forall|i: int|
            0 <= i < maps.len() && (#[trigger] maps[i]).contains_key(k) && (forall|j: int|
                0 <= j < i ==> !(#[trigger] maps[j]).contains_key(k)) implies first_wins(maps)[k]
            == maps[i][k] by {
            if i < maps.len() - 1 {
                assert(rest[i] == maps[i]);
                assert forall|j: int| 0 <= j < i implies !(#[trigger] rest[j]).contains_key(k) by {
                    assert(rest[j] == maps[j]);
                }
            } else {
                if first_wins(rest).contains_key(k) {
                    let j = choose|j: int| 0 <= j < rest.len() && (#[trigger] rest[j]).contains_key(k);
                    assert(rest[j] == maps[j]);
                }
            }
        }
    }
}

/// A symbol holds moved fields after merging `maps` exactly when some map
/// has an entry for it, and a field of it is moved exactly when some map
/// has it moved.
pub proof fn lemma_fields_first_wins_holds(
    maps: Seq<Map<SymbolId, Map<Seq<char>, SyntaxOriginView>>>,
    symbol: SymbolId,
    field: Seq<char>,
)
    ensures
        fields_first_wins(maps).contains_key(symbol) <==> exists|i: int|
            0 <= i < maps.len() && (#[trigger] maps[i]).contains_key(symbol),
        fields_of(fields_first_wins(maps), symbol).contains_key(field) <==> exists|i: int|
            0 <= i < maps.len() && fields_of(#[trigger] maps[i], symbol).contains_key(field),
    decreases maps.len(),
{
    if maps.len() > 0 {
        let rest = maps.drop_last();
        lemma_fields_first_wins_holds(rest, symbol, field);
        if fields_first_wins(maps).contains_key(symbol) && !fields_first_wins(rest).contains_key(
            symbol,
        ) {
            assert(maps[maps.len() - 1].contains_key(symbol));
        }
        if fields_first_wins(rest).contains_key(symbol) {
            let i = choose|i: int| 0 <= i < rest.len() && (#[trigger] rest[i]).contains_key(symbol);
            assert(maps[i] == rest[i]);
        }
        if fields_of(fields_first_wins(maps), symbol).contains_key(field) && !fields_of(
            fields_first_wins(rest),
            symbol,
        ).contains_key(field) {
            assert(fields_of(maps[maps.len() - 1], symbol).contains_key(field));
        }
        if fields_of(fields_first_wins(rest), symbol).contains_key(field) {
            let i = choose|i: int|
                0 <= i < rest.len() && fields_of(#[trigger] rest[i], symbol).contains_key(field);
            assert(maps[i] == rest[i]);
        }
        assert forall|i: int| 0 <= i < maps.len() && (#[trigger] maps[i]).contains_key(symbol) implies fields_first_wins(
            maps,
        ).contains_key(symbol) by {
            if i < maps.len() - 1 {
                assert(rest[i] == maps[i]);
            }
        }
        assert forall|i: int|
            0 <= i < maps.len() && fields_of(#[trigger] maps[i], symbol).contains_key(field) implies fields_of(
            fields_first_wins(maps),
            symbol,
        ).contains_key(field) by {
            if i < maps.len() - 1 {
                assert(rest[i] == maps[i]);
            }
        }
    }
}

/// Restoring a snapshot of a state gives that state back.
pub proof fn law_restore_of_snapshot(o: OwnershipView)
    ensures
        with_flow(o, flow_of(o)) == o,
{
}

/// Merging no continuing branch brings the baseline back.
pub proof fn law_merge_of_no_branch(o: OwnershipView, baseline: FlowView)
    ensures
        merged(o, baseline, Seq::empty()) == with_flow(o, baseline),
{
}

/// After a merge a binding is moved exactly when some branch moved it, and
/// its origin is that of the first branch that did.
pub proof fn law_moved_on_some_branch(
    o: OwnershipView,
    baseline: FlowView,
    branches: Seq<FlowView>,
    symbol: SymbolId,
)
    requires
        branches.len() > 0,
    ensures
        merged(o, baseline, branches).moved_bindings.contains_key(symbol) <==> exists|i: int|
            0 <= i < branches.len() && (#[trigger] branches[i]).moved_bindings.contains_key(symbol),
        forall|i: int|
            0 <= i < branches.len() && (#[trigger] branches[i]).moved_bindings.contains_key(symbol)
                && (forall|j: int|
                0 <= j < i ==> !(#[trigger] branches[j]).moved_bindings.contains_key(symbol))
                ==> merged(o, baseline, branches).moved_bindings[symbol]
                == branches[i].moved_bindings[symbol],
{
    let ms = branches.map_values(|f: FlowView| f.moved_bindings);
    lemma_first_wins_holds(ms, symbol);
    assert forall|i: int|
        0 <= i < branches.len() && (#[trigger] branches[i]).moved_bindings.contains_key(symbol) implies merged(
        o,
        baseline,
        branches,
    ).moved_bindings.contains_key(symbol) by {
        assert(ms[i] == branches[i].moved_bindings);
    }
    if merged(o, baseline, branches).moved_bindings.contains_key(symbol) {
        let i = choose|i: int| 0 <= i < ms.len() && (#[trigger] ms[i]).contains_key(symbol);
        assert(branches[i].moved_bindings.contains_key(symbol));
    }
    assert forall|i: int|
        0 <= i < branches.len() && (#[trigger] branches[i]).moved_bindings.contains_key(symbol)
            && (forall|j: int|
            0 <= j < i ==> !(#[trigger] branches[j]).moved_bindings.contains_key(symbol)) implies merged(
        o,
        baseline,
        branches,
    ).moved_bindings[symbol] == branches[i].moved_bindings[symbol] by {
        assert(ms[i].contains_key(symbol));
        assert forall|j: int| 0 <= j < i implies !(#[trigger] ms[j]).contains_key(symbol) by {
            assert(ms[j] == branches[j].moved_bindings);
        }
    }
}

/// After a merge, how a binding's eventual was consumed is recorded exactly
/// when some branch recorded it, as the first branch that did.
pub proof fn law_eventual_use_from_first_branch(
    o: OwnershipView,
    baseline: FlowView,
    branches: Seq<FlowView>,
    symbol: SymbolId,
)
    requires
        branches.len() > 0,
    ensures
        merged(o, baseline, branches).eventual_moves.contains_key(symbol) <==> exists|i: int|
            0 <= i < branches.len() && (#[trigger] branches[i]).eventual_moves.contains_key(symbol),
        forall|i: int|
            0 <= i < branches.len() && (#[trigger] branches[i]).eventual_moves.contains_key(symbol)
                && (forall|j: int|
                0 <= j < i ==> !(#[trigger] branches[j]).eventual_moves.contains_key(symbol))
                ==> merged(o, baseline, branches).eventual_moves[symbol]
                == branches[i].eventual_moves[symbol],
{
    let ms = branches.map_values(|f: FlowView| f.eventual_moves);
    lemma_first_wins_holds(ms, symbol);
    assert forall|i: int|
        0 <= i < branches.len() && (#[trigger] branches[i]).eventual_moves.contains_key(symbol) implies merged(
        o,
        baseline,
        branches,
    ).eventual_moves.contains_key(symbol) by {
        assert(ms[i] == branches[i].eventual_moves);
    }
    if merged(o, baseline, branches).eventual_moves.contains_key(symbol) {
        let i = choose|i: int| 0 <= i < ms.len() && (#[trigger] ms[i]).contains_key(symbol);
        assert(branches[i].eventual_moves.contains_key(symbol));
    }
    assert forall|i: int|
        0 <= i < branches.len() && (#[trigger] branches[i]).eventual_moves.contains_key(symbol)
            && (forall|j: int|
            0 <= j < i ==> !(#[trigger] branches[j]).eventual_moves.contains_key(symbol)) implies merged(
        o,
        baseline,
        branches,
    ).eventual_moves[symbol] == branches[i].eventual_moves[symbol] by {
        assert(ms[i].contains_key(symbol));
        assert forall|j: int| 0 <= j < i implies !(#[trigger] ms[j]).contains_key(symbol) by {
            assert(ms[j] == branches[j].eventual_moves);
        }
    }
}

/// After a merge, a binding's recoverable obligation is recorded exactly
/// when some branch recorded it, as the first branch that did.
pub proof fn law_obligation_from_first_branch(
    o: OwnershipView,
    baseline: FlowView,
    branches: Seq<FlowView>,
    symbol: SymbolId,
)
    requires
        branches.len() > 0,
    ensures
        merged(o, baseline, branches).obligations.contains_key(symbol) <==> exists|i: int|
            0 <= i < branches.len() && (#[trigger] branches[i]).obligations.contains_key(symbol),
        forall|i: int|
            0 <= i < branches.len() && (#[trigger] branches[i]).obligations.contains_key(symbol)
                && (forall|j: int|
                0 <= j < i ==> !(#[trigger] branches[j]).obligations.contains_key(symbol))
                ==> merged(o, baseline, branches).obligations[symbol]
                == branches[i].obligations[symbol],
{
    let ms = branches.map_values(|f: FlowView| f.obligations);
    lemma_first_wins_holds(ms, symbol);
    assert forall|i: int|
        0 <= i < branches.len() && (#[trigger] branches[i]).obligations.contains_key(symbol) implies merged(
        o,
        baseline,
        branches,
    ).obligations.contains_key(symbol) by {
        assert(ms[i] == branches[i].obligations);
    }
    if merged(o, baseline, branches).obligations.contains_key(symbol) {
        let i = choose|i: int| 0 <= i < ms.len() && (#[trigger] ms[i]).contains_key(symbol);
        assert(branches[i].obligations.contains_key(symbol));
    }
    assert forall|i: int|
        0 <= i < branches.len() && (#[trigger] branches[i]).obligations.contains_key(symbol)
            && (forall|j: int|
            0 <= j < i ==> !(#[trigger] branches[j]).obligations.contains_key(symbol)) implies merged(
        o,
        baseline,
        branches,
    ).obligations[symbol] == branches[i].obligations[symbol] by {
        assert(ms[i].contains_key(symbol));
        assert forall|j: int| 0 <= j < i implies !(#[trigger] ms[j]).contains_key(symbol) by {
            assert(ms[j] == branches[j].obligations);
        }
    }
}

/// After a merge, where a binding gave its loan back is recorded exactly
/// when some branch recorded it, as the first branch that did.
pub proof fn law_given_back_origin_from_first_branch(
    o: OwnershipView,
    baseline: FlowView,
    branches: Seq<FlowView>,
    symbol: SymbolId,
)
    requires
        branches.len() > 0,
    ensures
        merged(o, baseline, branches).returned_borrows.contains_key(symbol) <==> exists|i: int|
            0 <= i < branches.len() && (#[trigger] branches[i]).returned_borrows.contains_key(symbol),
        forall|i: int|
            0 <= i < branches.len() && (#[trigger] branches[i]).returned_borrows.contains_key(symbol)
                && (forall|j: int|
                0 <= j < i ==> !(#[trigger] branches[j]).returned_borrows.contains_key(symbol))
                ==> merged(o, baseline, branches).returned_borrows[symbol]
                == branches[i].returned_borrows[symbol],
{
    let ms = branches.map_values(|f: FlowView| f.returned_borrows);
    lemma_first_wins_holds(ms, symbol);
    assert forall|i: int|
        0 <= i < branches.len() && (#[trigger] branches[i]).returned_borrows.contains_key(symbol) implies merged(
        o,
        baseline,
        branches,
    ).returned_borrows.contains_key(symbol) by {
        assert(ms[i] == branches[i].returned_borrows);
    }
    if merged(o, baseline, branches).returned_borrows.contains_key(symbol) {
        let i = choose|i: int| 0 <= i < ms.len() && (#[trigger] ms[i]).contains_key(symbol);
        assert(branches[i].returned_borrows.contains_key(symbol));
    }
    assert forall|i: int|
        0 <= i < branches.len() && (#[trigger] branches[i]).returned_borrows.contains_key(symbol)
            && (forall|j: int|
            0 <= j < i ==> !(#[trigger] branches[j]).returned_borrows.contains_key(symbol)) implies merged(
        o,
        baseline,
        branches,
    ).returned_borrows[symbol] == branches[i].returned_borrows[symbol] by {
        assert(ms[i].contains_key(symbol));
        assert forall|j: int| 0 <= j < i implies !(#[trigger] ms[j]).contains_key(symbol) by {
            assert(ms[j] == branches[j].returned_borrows);
        }
    }
}

/// After a merge a field of a binding is moved exactly when some branch
/// moved it.
pub proof fn law_field_moved_on_some_branch(
    o: OwnershipView,
    baseline: FlowView,
    branches: Seq<FlowView>,
    symbol: SymbolId,
    field: Seq<char>,
)
    requires
        branches.len() > 0,
    ensures
        fields_of(merged(o, baseline, branches).moved_fields, symbol).contains_key(field)
            <==> exists|i: int|
            0 <= i < branches.len() && fields_of(
                (#[trigger] branches[i]).moved_fields,
                symbol,
            ).contains_key(field),
{
    let ms = branches.map_values(|f: FlowView| f.moved_fields);
    lemma_fields_first_wins_holds(ms, symbol, field);
    if fields_of(merged(o, baseline, branches).moved_fields, symbol).contains_key(field) {
        let i = choose|i: int| 0 <= i < ms.len() && fields_of(#[trigger] ms[i], symbol).contains_key(field);
        assert(ms[i] == branches[i].moved_fields);
    }
    assert forall|i: int|
        0 <= i < branches.len() && fields_of(
            (#[trigger] branches[i]).moved_fields,
            symbol,
        ).contains_key(field) implies fields_of(
        merged(o, baseline, branches).moved_fields,
        symbol,
    ).contains_key(field) by {
        assert(ms[i] == branches[i].moved_fields);
    }
}

/// After a merge a recoverable eventual still has to be handled exactly
/// when some branch left it unhandled.
pub proof fn law_obligation_outstanding_on_some_branch(
    o: OwnershipView,
    baseline: FlowView,
    branches: Seq<FlowView>,
    symbol: SymbolId,
)
    requires
        branches.len() > 0,
    ensures
        merged(o, baseline, branches).obligations.contains_key(symbol) <==> exists|i: int|
            0 <= i < branches.len() && (#[trigger] branches[i]).obligations.contains_key(symbol),
{
    let ms = branches.map_values(|f: FlowView| f.obligations);
    lemma_first_wins_holds(ms, symbol);
    if merged(o, baseline, branches).obligations.contains_key(symbol) {
        let i = choose|i: int| 0 <= i < ms.len() && (#[trigger] ms[i]).contains_key(symbol);
        assert(ms[i] == branches[i].obligations);
    }
    assert forall|i: int|
        0 <= i < branches.len() && (#[trigger] branches[i]).obligations.contains_key(symbol) implies merged(
        o,
        baseline,
        branches,
    ).obligations.contains_key(symbol) by {
        assert(ms[i] == branches[i].obligations);
    }
}

/// After a merge a binding counts as given back exactly when some branch
/// gave it back.
pub proof fn law_given_back_on_some_branch(
    o: OwnershipView,
    baseline: FlowView,
    branches: Seq<FlowView>,
    binding: SymbolId,
)
    requires
        branches.len() > 0,
    ensures
        merged(o, baseline, branches).returned_borrows.contains_key(binding) <==> returned_on_some(
            branches,
            binding,
        ),
{
    let ms = branches.map_values(|f: FlowView| f.returned_borrows);
    lemma_first_wins_holds(ms, binding);
    if merged(o, baseline, branches).returned_borrows.contains_key(binding) {
        let i = choose|i: int| 0 <= i < ms.len() && (#[trigger] ms[i]).contains_key(binding);
        assert(ms[i] == branches[i].returned_borrows);
    }
    if returned_on_some(branches, binding) {
        let i = choose|i: int|
            0 <= i < branches.len() && (#[trigger] branches[i]).returned_borrows.contains_key(
                binding,
            );
        assert(ms[i] == branches[i].returned_borrows);
    }
}

/// After a merge a loan taken before the branch point is still live on its
/// owner exactly when it was not given back on every branch.
pub proof fn law_loan_survives_unless_given_back_everywhere(
    o: OwnershipView,
    baseline: FlowView,
    branches: Seq<FlowView>,
    owner: SymbolId,
    loan: ActiveBorrowView,
)
    requires
        branches.len() > 0,
        baseline.active_borrows.contains_key(owner),
        baseline.active_borrows[owner].contains(loan),
    ensures
        (merged(o, baseline, branches).active_borrows.contains_key(owner) && merged(
            o,
            baseline,
            branches,
        ).active_borrows[owner].contains(loan)) <==> !returned_on_every(branches, loan.binding),
{
    let loans = baseline.active_borrows[owner];
    let keep = |b: ActiveBorrowView| !returned_on_every(branches, b.binding);
    let kept = surviving_loans(loans, branches);
    if !returned_on_every(branches, loan.binding) {
        let k = choose|k: int| 0 <= k < loans.len() && loans[k] == loan;
        loans.lemma_filter_contains(keep, k);
        assert(kept.len() > 0);
    }
    if kept.contains(loan) {
        loans.lemma_filter_contains_rev(keep, loan);
    }
}

/// After a merge a borrowing binding still holds its loan exactly when it
/// held it before the branch point and gave it back on no branch.
pub proof fn law_borrower_survives_unless_given_back_somewhere(
    o: OwnershipView,
    baseline: FlowView,
    branches: Seq<FlowView>,
    binding: SymbolId,
)
    requires
        branches.len() > 0,
    ensures
        merged(o, baseline, branches).borrow_bindings.contains_key(binding) <==> (
        baseline.borrow_bindings.contains_key(binding) && !returned_on_some(branches, binding)),
{
}

/// The moved fields of `symbol` after merging `maps` are the first-wins
/// union of its moved fields in each.
proof fn lemma_fields_first_wins_of_symbol(
    maps: Seq<Map<SymbolId, Map<Seq<char>, SyntaxOriginView>>>,
    symbol: SymbolId,
)
    ensures
        fields_of(fields_first_wins(maps), symbol) == first_wins(
            maps.map_values(|m: Map<SymbolId, Map<Seq<char>, SyntaxOriginView>>| fields_of(m, symbol)),
        ),
    decreases maps.len(),
{
    let per = maps.map_values(|m: Map<SymbolId, Map<Seq<char>, SyntaxOriginView>>| fields_of(m, symbol));
    if maps.len() > 0 {
        let rest = maps.drop_last();
        lemma_fields_first_wins_of_symbol(rest, symbol);
        let per_rest = rest.map_values(
            |m: Map<SymbolId, Map<Seq<char>, SyntaxOriginView>>| fields_of(m, symbol),
        );
        assert(per.drop_last() =~= per_rest);
        assert(per.last() == fields_of(maps.last(), symbol));
        assert(fields_of(fields_first_wins(maps), symbol) =~= fields_of(maps.last(), symbol).union_prefer_right(
            fields_of(fields_first_wins(rest), symbol),
        ));
    } else {
        assert(fields_of(fields_first_wins(maps), symbol) =~= Map::empty());
    }
}

/// After a merge, a moved field of a binding keeps the origin the first
/// branch that moved it recorded.
pub proof fn law_field_origin_from_first_branch(
    o: OwnershipView,
    baseline: FlowView,
    branches: Seq<FlowView>,
    symbol: SymbolId,
    field: Seq<char>,
    i: int,
)
    requires
        0 <= i < branches.len(),
        fields_of(branches[i].moved_fields, symbol).contains_key(field),
        forall|j: int|
            0 <= j < i ==> !fields_of(#[trigger] branches[j].moved_fields, symbol).contains_key(field),
    ensures
        fields_of(merged(o, baseline, branches).moved_fields, symbol).contains_key(field),
        fields_of(merged(o, baseline, branches).moved_fields, symbol)[field] == fields_of(
            branches[i].moved_fields,
            symbol,
        )[field],
{
    let ms = branches.map_values(|f: FlowView| f.moved_fields);
    let per = ms.map_values(|m: Map<SymbolId, Map<Seq<char>, SyntaxOriginView>>| fields_of(m, symbol));
    lemma_fields_first_wins_of_symbol(ms, symbol);
    lemma_first_wins_holds(per, field);
    assert(per[i] == fields_of(branches[i].moved_fields, symbol));
    assert forall|j: int| 0 <= j < i implies !(#[trigger] per[j]).contains_key(field) by {
        assert(per[j] == fields_of(branches[j].moved_fields, symbol));
    }
}

} // verus!
