//! Moves, reinitializations and the deferred-use conflicts they raise.
use crate::ids::{ScopeId, SymbolId, SyntaxOrigin, SyntaxOriginView};
use crate::model::{
    ActiveBorrowView, ActiveMutexGuardView, DeferredBindingUse, DeferredBindingUseView,
    DeferredTransferConflict, DeferredTransferConflictView, EventualMoveKind, OwnershipEvent,
    OwnershipEventKind, OwnershipEventView, RecoverableEventualObligation,
    RecoverableEventualObligationView, TypedProgram,
};
use crate::sorted_map::{Duplicate, SortedMap};
use vstd::prelude::*;

verus! {

/// The flow-sensitive ownership state of a typed program.
pub struct OwnershipView {
    /// Whole bindings moved out, with the origin of the first move.
    pub moved_bindings: Map<SymbolId, SyntaxOriginView>,
    /// Single fields moved out of aggregates, by binding then field name.
    pub moved_fields: Map<SymbolId, Map<Seq<char>, SyntaxOriginView>>,
    /// How each consumed eventual handle was consumed.
    pub eventual_moves: Map<SymbolId, EventualMoveKind>,
    /// Recoverable eventuals still to be awaited and handled.
    pub obligations: Map<SymbolId, RecoverableEventualObligationView>,
    /// Every distinct move and reinitialization of each binding, in order.
    pub history: Map<SymbolId, Seq<OwnershipEventView>>,
    /// Live loans on each owner, oldest first.
    pub active_borrows: Map<SymbolId, Seq<ActiveBorrowView>>,
    /// The live loan held by each borrowing binding.
    pub borrow_bindings: Map<SymbolId, ActiveBorrowView>,
    /// The latest loan each borrowing binding ever took.
    pub borrow_history: Map<SymbolId, ActiveBorrowView>,
    /// The first loan ever taken on each owner.
    pub owner_borrow_history: Map<SymbolId, ActiveBorrowView>,
    /// Borrowing bindings given back explicitly, with where.
    pub returned_borrows: Map<SymbolId, SyntaxOriginView>,
    /// Held mutex locks by mutex binding.
    pub mutex_guards: Map<SymbolId, ActiveMutexGuardView>,
    /// Reads of each binding from deferred blocks, in order.
    pub deferred_uses: Map<SymbolId, Seq<DeferredBindingUseView>>,
    /// Shared loans held on each binding by spawned tasks and local
    /// closures, in order.
    pub task_borrows: Map<SymbolId, Seq<crate::model::TaskBorrowView>>,
    /// Closure values holding borrowed captures.
    pub bor_env_closures: Set<SymbolId>,
    /// The first move found of a binding a deferred block still reads.
    pub conflict: Option<DeferredTransferConflictView>,
}

/// What the checker records about types, capabilities and call sites.
pub struct FactsView {
    /// The capability model the program is checked under.
    pub capability_model: crate::config::TypecheckCapabilityModel,
    /// The interned types, by id.
    pub types: Seq<crate::types::CheckedTypeView>,
    /// The source files of the package, in order.
    pub source_units: Seq<crate::model::TypedSourceUnitView>,
    /// The type a shell type stands for where one was recorded.
    pub apparent_type_overrides: Map<crate::types::CheckedTypeId, crate::types::CheckedTypeId>,
    /// The capability standards each type declaration claims.
    pub capability_claims: Map<SymbolId, Set<Seq<char>>>,
    /// The capability bounds on each generic parameter.
    pub generic_capability_constraints: Map<SymbolId, Set<Seq<char>>>,
    /// The types whose declaration claims custom finalization.
    pub fin_types: Set<crate::types::CheckedTypeId>,
    /// The routine each method call resolved to.
    pub method_call_targets: Map<crate::ids::SyntaxNodeId, SymbolId>,
    /// The method calls that target a routine required by a generic
    /// constraint.
    pub constraint_call_sites: Set<crate::ids::SyntaxNodeId>,
    /// What was recorded for each syntax node.
    pub nodes: Map<crate::ids::SyntaxNodeId, crate::model::TypedNode>,
    /// What was recorded for each name use.
    pub references: Map<crate::ids::ReferenceId, crate::model::TypedReference>,
    /// The conformance claims of each type declaration.
    pub conformances: Map<SymbolId, crate::model::TypedConformanceView>,
    /// The declaration-order field layout of record types.
    pub record_layouts: Map<crate::types::CheckedTypeId, Seq<crate::model::RecordFieldLayoutView>>,
    /// The instantiated signature at each direct call site.
    pub call_signatures: Map<crate::ids::SyntaxNodeId, crate::types::RoutineTypeView>,
    /// The generic instantiations being expanded.
    pub active_instantiations: Set<crate::types::CheckedTypeId>,
    /// Where the builtin scalar types sit in the type table.
    pub builtins: crate::model::BuiltinTypeIds,
    /// The name resolution the program was made from.
    pub resolved: crate::resolution::Resolution,
}

/// The types a program starts with: the builtin scalars `int`, `flt` and
/// `chr` at their default widths and encoding, then `bol`, `str`, `never`.
pub open spec fn builtin_table() -> Seq<crate::types::CheckedTypeView> {
    seq![
        crate::types::CheckedTypeView::Builtin(crate::types::BuiltinType::Int(crate::widths::IntWidth::DEFAULT)),
        crate::types::CheckedTypeView::Builtin(crate::types::BuiltinType::Float(crate::widths::FloatWidth::DEFAULT)),
        crate::types::CheckedTypeView::Builtin(crate::types::BuiltinType::Bool),
        crate::types::CheckedTypeView::Builtin(crate::types::BuiltinType::Char(crate::widths::CharEncoding::DEFAULT)),
        crate::types::CheckedTypeView::Builtin(crate::types::BuiltinType::Str),
        crate::types::CheckedTypeView::Builtin(crate::types::BuiltinType::Never),
    ]
}

/// The ids the builtin scalar types get in a fresh program, in the order
/// of `builtin_table`.
pub open spec fn standard_builtin_ids() -> crate::model::BuiltinTypeIds {
    crate::model::BuiltinTypeIds {
        int: crate::types::CheckedTypeId(0),
        float: crate::types::CheckedTypeId(1),
        bool_: crate::types::CheckedTypeId(2),
        char_: crate::types::CheckedTypeId(3),
        str_: crate::types::CheckedTypeId(4),
        never: crate::types::CheckedTypeId(5),
    }
}

/// The facts of a program made from `resolved` and checked under
/// `capability_model` before anything was recorded: only the builtin scalar
/// types are interned.
pub open spec fn fresh_facts(
    capability_model: crate::config::TypecheckCapabilityModel,
    resolved: crate::resolution::Resolution,
) -> FactsView {
    FactsView {
        capability_model,
        types: builtin_table(),
        source_units: Seq::empty(),
        apparent_type_overrides: Map::empty(),
        capability_claims: Map::empty(),
        generic_capability_constraints: Map::empty(),
        fin_types: Set::empty(),
        method_call_targets: Map::empty(),
        constraint_call_sites: Set::empty(),
        nodes: Map::empty(),
        references: Map::empty(),
        conformances: Map::empty(),
        record_layouts: Map::empty(),
        call_signatures: Map::empty(),
        active_instantiations: Set::empty(),
        builtins: standard_builtin_ids(),
        resolved,
    }
}

/// The ownership state before anything moved, borrowed or locked.
pub open spec fn no_ownership() -> OwnershipView {
    OwnershipView {
        moved_bindings: Map::empty(),
        moved_fields: Map::empty(),
        eventual_moves: Map::empty(),
        obligations: Map::empty(),
        history: Map::empty(),
        active_borrows: Map::empty(),
        borrow_bindings: Map::empty(),
        borrow_history: Map::empty(),
        owner_borrow_history: Map::empty(),
        returned_borrows: Map::empty(),
        mutex_guards: Map::empty(),
        deferred_uses: Map::empty(),
        task_borrows: Map::empty(),
        bor_env_closures: Set::empty(),
        conflict: None,
    }
}

impl TypedProgram {
    /// The program's ownership state.
    pub closed spec fn ownership(&self) -> OwnershipView {
        OwnershipView {
            moved_bindings: self.moved_bindings.deep_view(),
            moved_fields: self.moved_fields.deep_view(),
            eventual_moves: self.eventual_moves.deep_view(),
            obligations: self.recoverable_eventual_obligations.deep_view(),
            history: self.ownership_history.deep_view(),
            active_borrows: self.active_borrows.deep_view(),
            borrow_bindings: self.borrow_bindings.deep_view(),
            borrow_history: self.borrow_history.deep_view(),
            owner_borrow_history: self.owner_borrow_history.deep_view(),
            returned_borrows: self.returned_borrows.deep_view(),
            mutex_guards: self.active_mutex_guards.deep_view(),
            deferred_uses: self.deferred_binding_uses.deep_view(),
            task_borrows: self.task_borrowed_bindings.deep_view(),
            bor_env_closures: self.bor_env_closures.deep_view().dom(),
            conflict: match self.deferred_transfer_conflict {
                Some(c) => Some(c.deep_view()),
                None => None,
            },
        }
    }

    /// What the checker records besides the ownership state and the
    /// symbols.
    pub closed spec fn facts(&self) -> FactsView {
        FactsView {
            capability_model: self.capability_model,
            types: self.type_table@,
            source_units: crate::model::units_view(self.source_units@),
            apparent_type_overrides: self.apparent_type_overrides.deep_view(),
            capability_claims: self.capability_claims.deep_view().map_values(
                |m: Map<Seq<char>, ()>| m.dom(),
            ),
            generic_capability_constraints: self.generic_capability_constraints.deep_view().map_values(
                |m: Map<Seq<char>, ()>| m.dom(),
            ),
            fin_types: self.fin_types.deep_view().dom(),
            method_call_targets: self.method_call_targets.deep_view(),
            constraint_call_sites: self.constraint_call_sites.deep_view().dom(),
            nodes: self.nodes.as_map(),
            references: self.references.as_map(),
            conformances: self.conformances.as_map().map_values(
                |c: crate::model::TypedConformance| c@,
            ),
            record_layouts: self.record_layouts.as_map().map_values(
                |v: Vec<crate::model::RecordFieldLayout>| crate::model::layout_view(v@),
            ),
            call_signatures: self.call_signatures.as_map().map_values(
                |t: crate::types::RoutineType| t@,
            ),
            active_instantiations: self.active_instantiations.as_map().dom(),
            builtins: self.builtins,
            resolved: self.resolved,
        }
    }

    /// The facts about symbols, unchanged by ownership bookkeeping.
    pub closed spec fn symbol_facts(&self) -> Map<SymbolId, crate::model::TypedSymbol> {
        self.symbols.as_map()
    }

    /// The ownership state, the other facts and the symbol facts, read off
    /// the fields that hold them.
    pub(crate) proof fn lemma_state_fields(&self)
        ensures
            self.ownership() == (OwnershipView {
                moved_bindings: self.moved_bindings.deep_view(),
                moved_fields: self.moved_fields.deep_view(),
                eventual_moves: self.eventual_moves.deep_view(),
                obligations: self.recoverable_eventual_obligations.deep_view(),
                history: self.ownership_history.deep_view(),
                active_borrows: self.active_borrows.deep_view(),
                borrow_bindings: self.borrow_bindings.deep_view(),
                borrow_history: self.borrow_history.deep_view(),
                owner_borrow_history: self.owner_borrow_history.deep_view(),
                returned_borrows: self.returned_borrows.deep_view(),
                mutex_guards: self.active_mutex_guards.deep_view(),
                deferred_uses: self.deferred_binding_uses.deep_view(),
                task_borrows: self.task_borrowed_bindings.deep_view(),
                bor_env_closures: self.bor_env_closures.deep_view().dom(),
                conflict: match self.deferred_transfer_conflict {
                    Some(c) => Some(c.deep_view()),
                    None => None,
                },
            }),
            self.facts() == (FactsView {
                capability_model: self.capability_model,
                types: self.type_table@,
                source_units: crate::model::units_view(self.source_units@),
                apparent_type_overrides: self.apparent_type_overrides.deep_view(),
                capability_claims: self.capability_claims.deep_view().map_values(
                    |m: Map<Seq<char>, ()>| m.dom(),
                ),
                generic_capability_constraints: self.generic_capability_constraints.deep_view().map_values(
                    |m: Map<Seq<char>, ()>| m.dom(),
                ),
                fin_types: self.fin_types.deep_view().dom(),
                method_call_targets: self.method_call_targets.deep_view(),
                constraint_call_sites: self.constraint_call_sites.deep_view().dom(),
                nodes: self.nodes.as_map(),
                references: self.references.as_map(),
                conformances: self.conformances.as_map().map_values(
                    |c: crate::model::TypedConformance| c@,
                ),
                record_layouts: self.record_layouts.as_map().map_values(
                    |v: Vec<crate::model::RecordFieldLayout>| crate::model::layout_view(v@),
                ),
                call_signatures: self.call_signatures.as_map().map_values(
                    |t: crate::types::RoutineType| t@,
                ),
                active_instantiations: self.active_instantiations.as_map().dom(),
                builtins: self.builtins,
                resolved: self.resolved,
            }),
            self.symbol_facts() == self.symbols.as_map(),
    {
    }
}

/// The first deferred read of `symbol`, if any.
pub open spec fn first_deferred_use(o: OwnershipView, symbol: SymbolId) -> Option<
    DeferredBindingUseView,
> {
    if o.deferred_uses.contains_key(symbol) && o.deferred_uses[symbol].len() > 0 {
        Some(o.deferred_uses[symbol][0])
    } else {
        None
    }
}

/// The conflict after a move of `symbol` at `origin` is found to hit a
/// deferred read: the first conflict found stays.
pub open spec fn conflict_after(
    o: OwnershipView,
    symbol: SymbolId,
    origin: SyntaxOriginView,
) -> Option<DeferredTransferConflictView> {
    match o.conflict {
        Some(c) => Some(c),
        None => Some(
            DeferredTransferConflictView {
                symbol,
                transfer_origin: origin,
                deferred_origin: first_deferred_use(o, symbol)->0.origin,
            },
        ),
    }
}

/// `history` with `event` appended unless it is already there.
pub open spec fn history_with(
    history: Map<SymbolId, Seq<OwnershipEventView>>,
    symbol: SymbolId,
    event: OwnershipEventView,
) -> Map<SymbolId, Seq<OwnershipEventView>> {
    let events = if history.contains_key(symbol) {
        history[symbol]
    } else {
        Seq::empty()
    };
    if events.contains(event) {
        history.insert(symbol, events)
    } else {
        history.insert(symbol, events.push(event))
    }
}

/// `m` with `k` mapped to `v` unless `k` is already present.
pub open spec fn or_insert<K, V>(m: Map<K, V>, k: K, v: V) -> Map<K, V> {
    if m.contains_key(k) {
        m
    } else {
        m.insert(k, v)
    }
}

/// The ownership state after field `field` of `symbol` moves at `origin`,
/// when no deferred block reads `symbol`: the move joins the binding's
/// history, and the field keeps the first origin it moved at.
pub open spec fn after_field_move(
    o: OwnershipView,
    symbol: SymbolId,
    field: Seq<char>,
    origin: SyntaxOriginView,
) -> OwnershipView {
    OwnershipView {
        history: history_with(
            o.history,
            symbol,
            OwnershipEventView { kind: OwnershipEventKind::Move, origin },
        ),
        moved_fields: o.moved_fields.insert(
            symbol,
            or_insert(
                if o.moved_fields.contains_key(symbol) {
                    o.moved_fields[symbol]
                } else {
                    Map::empty()
                },
                field,
                origin,
            ),
        ),
        ..o
    }
}

/// Whether `name` is the least, by name order, of the moved fields
/// `fields`.
pub open spec fn least_moved_field(fields: Map<Seq<char>, SyntaxOriginView>, name: Seq<char>) -> bool {
    &&& fields.contains_key(name)
    &&& forall|other: Seq<char>|
        #[trigger] fields.contains_key(other) && other != name ==> crate::text::name_lt(name, other)
}

/// Moving two different fields of a binding with no moved fields and no
/// deferred read records each field with its own origin, whichever moved
/// first; the field reported first is the one with the lesser name, not the
/// one that moved first; reinitializing the binding forgets both.
pub proof fn law_moved_fields_are_reported_by_name(
    o: OwnershipView,
    symbol: SymbolId,
    first: Seq<char>,
    first_origin: SyntaxOriginView,
    second: Seq<char>,
    second_origin: SyntaxOriginView,
)
    requires
        !o.moved_fields.contains_key(symbol),
        first_deferred_use(o, symbol) is None,
        first != second,
    ensures
        ({
            let after = after_field_move(
                after_field_move(o, symbol, first, first_origin),
                symbol,
                second,
                second_origin,
            );
            let least = if crate::text::name_lt(first, second) {
                first
            } else {
                second
            };
            &&& after.moved_fields[symbol] == map![first => first_origin, second => second_origin]
            &&& forall|name: Seq<char>| least_moved_field(after.moved_fields[symbol], name) <==> name == least
            &&& !after.moved_fields.remove(symbol).contains_key(symbol)
        }),
{
    let middle = after_field_move(o, symbol, first, first_origin);
    let after = after_field_move(middle, symbol, second, second_origin);
    let fields = after.moved_fields[symbol];
    assert(middle.moved_fields[symbol] =~= map![first => first_origin]);
    assert(fields =~= map![first => first_origin, second => second_origin]);
    crate::text::lemma_name_lt_total(first, second);
    crate::text::lemma_name_lt_asymmetric(first, second);
    crate::text::lemma_name_lt_irreflexive(first);
    crate::text::lemma_name_lt_irreflexive(second);
    let least = if crate::text::name_lt(first, second) {
        first
    } else {
        second
    };
    assert forall|name: Seq<char>| least_moved_field(fields, name) <==> name == least by {
        if name == least {
            assert forall|other: Seq<char>| #[trigger] fields.contains_key(other) && other != name implies crate::text::name_lt(name, other) by {
            }
        }
        if least_moved_field(fields, name) && name != least {
            assert(fields.contains_key(least));
        }
    }
}

impl TypedProgram {
    /// The first deferred read of `symbol`.
    pub fn first_deferred_binding_use(&self, symbol: SymbolId) -> (r: Option<&DeferredBindingUse>)
        ensures
            match r {
                Some(u) => first_deferred_use(self.ownership(), symbol) == Some(u.deep_view()),
                None => first_deferred_use(self.ownership(), symbol) is None,
            },
    {
        match self.deferred_binding_uses.get(&symbol) {
            Some(uses) => {
                if uses.len() > 0 {
                    Some(&uses[0])
                } else {
                    None
                }
            },
            None => None,
        }
    }

    /// Records that a deferred block reads `symbol`, unless the same read is
    /// already recorded.
    pub fn register_deferred_binding_use(&mut self, symbol: SymbolId, deferred_use: DeferredBindingUse)
        ensures
            final(self).ownership() == (OwnershipView {
                deferred_uses: {
                    let d = old(self).ownership().deferred_uses;
                    let uses = if d.contains_key(symbol) {
                        d[symbol]
                    } else {
                        Seq::empty()
                    };
                    if uses.contains(deferred_use.deep_view()) {
                        d.insert(symbol, uses)
                    } else {
                        d.insert(symbol, uses.push(deferred_use.deep_view()))
                    }
                },
                ..old(self).ownership()
            }),
            final(self).facts() == old(self).facts(),
            final(self).symbol_facts() == old(self).symbol_facts(),
    {
        let ghost d = old(self).ownership().deferred_uses;
        let removed = self.deferred_binding_uses.remove(&symbol);
        let ghost after_remove = self.deferred_binding_uses;
        proof {
            SortedMap::<SymbolId, Vec<DeferredBindingUse>>::lemma_deep_remove(
                &old(self).deferred_binding_uses,
                &after_remove,
                symbol,
            );
        }
        let mut uses = match removed {
            Some(u) => u,
            None => Vec::new(),
        };
        let ghost before = uses.deep_view();
        proof {
            assert(before == (if d.contains_key(symbol) {
                d[symbol]
            } else {
                Seq::<DeferredBindingUseView>::empty()
            }));
        }
        let mut found = false;
        let mut i: usize = 0;
        while i < uses.len()
            invariant
                i <= uses@.len(),
                uses.deep_view() == before,
                found == (exists|j: int| 0 <= j < i && before[j] == deferred_use.deep_view()),
            decreases uses@.len() - i,
        {
            if uses[i].scope.0 == deferred_use.scope.0 && uses[i].origin.same_as(
                &deferred_use.origin,
            ) {
                found = true;
            }
            proof {
                assert(before[i as int] == uses@[i as int].deep_view());
            }
            i = i + 1;
        }
        if !found {
            uses.push(deferred_use);
        }
        let ghost after = uses.deep_view();
        proof {
            if found {
                assert(before.contains(deferred_use.deep_view()));
                assert(after == before);
            } else {
                assert(!before.contains(deferred_use.deep_view()));
                assert(after =~= before.push(deferred_use.deep_view()));
            }
        }
        let ghost uses_g = uses;
        self.deferred_binding_uses.insert(symbol, uses);
        proof {
            SortedMap::<SymbolId, Vec<DeferredBindingUse>>::lemma_deep_insert(
                &after_remove,
                &self.deferred_binding_uses,
                symbol,
                uses_g,
            );
            assert(self.deferred_binding_uses.deep_view() =~= d.insert(symbol, after));
            assert(self.ownership() =~= (OwnershipView {
                deferred_uses: d.insert(symbol, after),
                ..old(self).ownership()
            }));
        }
    }
}

/// `moved_fields` with `field` of `symbol` moved at `origin`, keeping the
/// origin of an earlier move of that field.
fn record_field_move(
    moved_fields: &mut SortedMap<SymbolId, SortedMap<String, SyntaxOrigin>>,
    symbol: SymbolId,
    field: &str,
    origin: SyntaxOrigin,
)
    ensures
        final(moved_fields).deep_view() == old(moved_fields).deep_view().insert(
            symbol,
            or_insert(
                if old(moved_fields).deep_view().contains_key(symbol) {
                    old(moved_fields).deep_view()[symbol]
                } else {
                    Map::empty()
                },
                field@,
                origin@,
            ),
        ),
{
    let ghost mf = old(moved_fields).deep_view();
    let removed = moved_fields.remove(&symbol);
    let ghost after_remove = *moved_fields;
    let mut fields = match removed {
        Some(f) => f,
        None => SortedMap::new(),
    };
    let ghost inner_before = fields;
    proof {
        SortedMap::<SymbolId, SortedMap<String, SyntaxOrigin>>::lemma_deep_remove(
            &*old(moved_fields),
            &after_remove,
            symbol,
        );
        assert(inner_before.deep_view() == (if mf.contains_key(symbol) {
            mf[symbol]
        } else {
            Map::<Seq<char>, SyntaxOriginView>::empty()
        }));
    }
    let name = crate::text::owned(field);
    if !fields.contains_key(&name) {
        let ghost origin_g = origin;
        fields.insert(name, origin);
        proof {
            SortedMap::<String, SyntaxOrigin>::lemma_deep_insert(
                &inner_before,
                &fields,
                field@,
                origin_g,
            );
        }
    }
    let ghost fields_g = fields;
    moved_fields.insert(symbol, fields);
    proof {
        SortedMap::<SymbolId, SortedMap<String, SyntaxOrigin>>::lemma_deep_insert(
            &after_remove,
            &*moved_fields,
            symbol,
            fields_g,
        );
    }
}

impl TypedProgram {
    /// When a deferred block still reads `symbol`, records the move at
    /// `transfer_origin` as the conflict (keeping an earlier one) and says so.
    fn record_deferred_transfer_conflict(&mut self, symbol: SymbolId, transfer_origin: SyntaxOrigin) -> (r:
        bool)
        ensures
            r == (first_deferred_use(old(self).ownership(), symbol) is Some),
            r ==> final(self).ownership() == (OwnershipView {
                conflict: conflict_after(old(self).ownership(), symbol, transfer_origin@),
                ..old(self).ownership()
            }),
            !r ==> final(self).ownership() == old(self).ownership(),
            final(self).facts() == old(self).facts(),
            final(self).symbol_facts() == old(self).symbol_facts(),
    {
        let deferred_origin = match self.first_deferred_binding_use(symbol) {
            Some(u) => u.origin.copy(),
            None => {
                return false;
            },
        };
        if self.deferred_transfer_conflict.is_none() {
            self.deferred_transfer_conflict = Some(
                DeferredTransferConflict { symbol, transfer_origin, deferred_origin },
            );
        }
        proof {
            assert(self.ownership() =~= (OwnershipView {
                conflict: conflict_after(old(self).ownership(), symbol, transfer_origin@),
                ..old(self).ownership()
            }));
        }
        true
    }

    /// Appends an ownership event to `symbol`'s history unless it is
    /// already recorded.
    fn record_ownership_event(&mut self, symbol: SymbolId, kind: OwnershipEventKind, origin: SyntaxOrigin)
        ensures
            final(self).ownership() == (OwnershipView {
                history: history_with(
                    old(self).ownership().history,
                    symbol,
                    OwnershipEventView { kind, origin: origin@ },
                ),
                ..old(self).ownership()
            }),
            final(self).facts() == old(self).facts(),
            final(self).symbol_facts() == old(self).symbol_facts(),
    {
        let ghost h = old(self).ownership().history;
        let ghost event = OwnershipEventView { kind, origin: origin@ };
        let removed = self.ownership_history.remove(&symbol);
        let ghost after_remove = self.ownership_history;
        proof {
            SortedMap::<SymbolId, Vec<OwnershipEvent>>::lemma_deep_remove(
                &old(self).ownership_history,
                &after_remove,
                symbol,
            );
        }
        let mut events = match removed {
            Some(e) => e,
            None => Vec::new(),
        };
        let ghost before = events.deep_view();
        proof {
            assert(before == (if h.contains_key(symbol) {
                h[symbol]
            } else {
                Seq::<OwnershipEventView>::empty()
            }));
        }
        let mut found = false;
        let mut i: usize = 0;
        while i < events.len()
            invariant
                i <= events@.len(),
                events.deep_view() == before,
                event == (OwnershipEventView { kind, origin: origin@ }),
                found == (exists|j: int| 0 <= j < i && before[j] == event),
            decreases events@.len() - i,
        {
            let same_kind = match (events[i].kind, kind) {
                (OwnershipEventKind::Move, OwnershipEventKind::Move) => true,
                (OwnershipEventKind::Reinitialize, OwnershipEventKind::Reinitialize) => true,
                _ => false,
            };
            if same_kind && events[i].origin.same_as(&origin) {
                found = true;
            }
            proof {
                assert(before[i as int] == events@[i as int].deep_view());
            }
            i = i + 1;
        }
        if !found {
            events.push(OwnershipEvent { kind, origin });
        }
        let ghost after = events.deep_view();
        proof {
            if found {
                assert(before.contains(event));
            } else {
                assert(!before.contains(event));
                assert(after =~= before.push(event));
            }
        }
        let ghost events_g = events;
        self.ownership_history.insert(symbol, events);
        proof {
            SortedMap::<SymbolId, Vec<OwnershipEvent>>::lemma_deep_insert(
                &after_remove,
                &self.ownership_history,
                symbol,
                events_g,
            );
            assert(self.ownership_history.deep_view() =~= history_with(h, symbol, event));
            assert(self.ownership() =~= (OwnershipView {
                history: history_with(h, symbol, event),
                ..old(self).ownership()
            }));
        }
    }

    /// Marks the whole binding `symbol` as moved at `origin`. A move of a
    /// binding that a deferred block still reads is recorded as the pending
    /// conflict instead and changes nothing else. Otherwise the move joins
    /// the binding's history, and the binding counts as moved, keeping the
    /// origin of its first move.
    pub fn mark_binding_moved(&mut self, symbol: SymbolId, origin: SyntaxOrigin)
        ensures
            first_deferred_use(old(self).ownership(), symbol) is Some ==> final(self).ownership() == (
            OwnershipView {
                conflict: conflict_after(old(self).ownership(), symbol, origin@),
                ..old(self).ownership()
            }),
            first_deferred_use(old(self).ownership(), symbol) is None ==> final(self).ownership() == (
            OwnershipView {
                history: history_with(
                    old(self).ownership().history,
                    symbol,
                    OwnershipEventView { kind: OwnershipEventKind::Move, origin: origin@ },
                ),
                moved_bindings: or_insert(old(self).ownership().moved_bindings, symbol, origin@),
                ..old(self).ownership()
            }),
            final(self).facts() == old(self).facts(),
            final(self).symbol_facts() == old(self).symbol_facts(),
    {
        if self.record_deferred_transfer_conflict(symbol, origin.copy()) {
            return ;
        }
        self.record_ownership_event(symbol, OwnershipEventKind::Move, origin.copy());
        let ghost mid = self.ownership();
        if !self.moved_bindings.contains_key(&symbol) {
            let ghost before = self.moved_bindings;
            let ghost origin_g = origin;
            self.moved_bindings.insert(symbol, origin);
            proof {
                SortedMap::<SymbolId, SyntaxOrigin>::lemma_deep_insert(
                    &before,
                    &self.moved_bindings,
                    symbol,
                    origin_g,
                );
            }
        }
        proof {
            assert(self.ownership() =~= (OwnershipView {
                history: history_with(
                    old(self).ownership().history,
                    symbol,
                    OwnershipEventView { kind: OwnershipEventKind::Move, origin: origin@ },
                ),
                moved_bindings: or_insert(old(self).ownership().moved_bindings, symbol, origin@),
                ..old(self).ownership()
            }));
        }
    }

    /// Marks `symbol` as holding a value again: its whole-binding move,
    /// moved fields and eventual consumption are forgotten, and a given
    /// origin joins the binding's history as a reinitialization.
    pub fn mark_binding_reinitialized(&mut self, symbol: SymbolId, origin: Option<SyntaxOrigin>)
        ensures
            final(self).ownership() == (OwnershipView {
                history: match origin {
                    Some(o) => history_with(
                        old(self).ownership().history,
                        symbol,
                        OwnershipEventView { kind: OwnershipEventKind::Reinitialize, origin: o@ },
                    ),
                    None => old(self).ownership().history,
                },
                moved_bindings: old(self).ownership().moved_bindings.remove(symbol),
                moved_fields: old(self).ownership().moved_fields.remove(symbol),
                eventual_moves: old(self).ownership().eventual_moves.remove(symbol),
                ..old(self).ownership()
            }),
            final(self).facts() == old(self).facts(),
            final(self).symbol_facts() == old(self).symbol_facts(),
    {
        match origin {
            Some(o) => self.record_ownership_event(symbol, OwnershipEventKind::Reinitialize, o),
            None => {},
        }
        let ghost b0 = self.moved_bindings;
        self.moved_bindings.remove(&symbol);
        let ghost f0 = self.moved_fields;
        self.moved_fields.remove(&symbol);
        let ghost e0 = self.eventual_moves;
        self.eventual_moves.remove(&symbol);
        proof {
            SortedMap::<SymbolId, SyntaxOrigin>::lemma_deep_remove(&b0, &self.moved_bindings, symbol);
            SortedMap::<SymbolId, SortedMap<String, SyntaxOrigin>>::lemma_deep_remove(
                &f0,
                &self.moved_fields,
                symbol,
            );
            SortedMap::<SymbolId, EventualMoveKind>::lemma_deep_remove(
                &e0,
                &self.eventual_moves,
                symbol,
            );
            assert(self.ownership() =~= (OwnershipView {
                history: match origin {
                    Some(o) => history_with(
                        old(self).ownership().history,
                        symbol,
                        OwnershipEventView { kind: OwnershipEventKind::Reinitialize, origin: o@ },
                    ),
                    None => old(self).ownership().history,
                },
                moved_bindings: old(self).ownership().moved_bindings.remove(symbol),
                moved_fields: old(self).ownership().moved_fields.remove(symbol),
                eventual_moves: old(self).ownership().eventual_moves.remove(symbol),
                ..old(self).ownership()
            }));
        }
    }

    /// Marks the single field `field` of `symbol` as moved at `origin`,
    /// keeping the origin of an earlier move of the same field. A move of a
    /// binding a deferred block still reads is recorded as the pending
    /// conflict instead.
    pub fn mark_field_moved(&mut self, symbol: SymbolId, field: &str, origin: SyntaxOrigin)
        ensures
            first_deferred_use(old(self).ownership(), symbol) is Some ==> final(self).ownership() == (
            OwnershipView {
                conflict: conflict_after(old(self).ownership(), symbol, origin@),
                ..old(self).ownership()
            }),
            first_deferred_use(old(self).ownership(), symbol) is None ==> final(self).ownership()
                == after_field_move(old(self).ownership(), symbol, field@, origin@),
            final(self).facts() == old(self).facts(),
            final(self).symbol_facts() == old(self).symbol_facts(),
    {
        if self.record_deferred_transfer_conflict(symbol, origin.copy()) {
            return ;
        }
        self.record_ownership_event(symbol, OwnershipEventKind::Move, origin.copy());
        let ghost before = self.ownership();
        record_field_move(&mut self.moved_fields, symbol, field, origin);
        proof {
            assert(self.ownership() =~= (OwnershipView {
                moved_fields: self.moved_fields.deep_view(),
                ..before
            }));
        }
    }

    /// Where the whole binding `symbol` was first moved, while it is moved.
    pub fn moved_binding_origin(&self, symbol: SymbolId) -> (r: Option<&SyntaxOrigin>)
        ensures
            match r {
                Some(o) => self.ownership().moved_bindings.contains_key(symbol)
                    && o@ == self.ownership().moved_bindings[symbol],
                None => !self.ownership().moved_bindings.contains_key(symbol),
            },
    {
        self.moved_bindings.get(&symbol)
    }

    /// Where `symbol.field` was moved, while it is moved.
    pub fn moved_field_origin(&self, symbol: SymbolId, field: &str) -> (r: Option<&SyntaxOrigin>)
        ensures
            match r {
                Some(o) => self.ownership().moved_fields.contains_key(symbol)
                    && self.ownership().moved_fields[symbol].contains_key(field@) && o@
                    == self.ownership().moved_fields[symbol][field@],
                None => !(self.ownership().moved_fields.contains_key(symbol)
                    && self.ownership().moved_fields[symbol].contains_key(field@)),
            },
    {
        match self.moved_fields.get(&symbol) {
            Some(fields) => {
                let name = crate::text::owned(field);
                fields.get(&name)
            },
            None => None,
        }
    }

    /// The moved field of `symbol` with the least name, while the binding
    /// is partially moved.
    pub fn first_moved_field(&self, symbol: SymbolId) -> (r: Option<(&String, &SyntaxOrigin)>)
        ensures
            match r {
                Some((name, o)) => {
                    let fields = self.ownership().moved_fields[symbol];
                    &&& self.ownership().moved_fields.contains_key(symbol)
                    &&& least_moved_field(fields, name@)
                    &&& o@ == fields[name@]
                },
                None => !self.ownership().moved_fields.contains_key(symbol)
                    || self.ownership().moved_fields[symbol] == Map::<
                    Seq<char>,
                    SyntaxOriginView,
                >::empty(),
            },
    {
        match self.moved_fields.get(&symbol) {
            Some(fields) => {
                fields.is_well_formed();
                if fields.len() == 0 {
                    proof {
                        assert(fields.deep_view() =~= Map::<Seq<char>, SyntaxOriginView>::empty());
                    }
                    None
                } else {
                    proof {
                        let e = fields.entries();
                        crate::sorted_map::lemma_key_position::<String, SyntaxOrigin>(e, 0);
                        assert forall|other: Seq<char>|
                            #[trigger] fields.deep_view().contains_key(other) && other != e[0].0 implies crate::text::name_lt(
                            e[0].0,
                            other,
                        ) by {
                            assert(fields.as_map().contains_key(other));
                            assert(crate::sorted_map::seq_has_key(e, other));
                            let p = crate::sorted_map::seq_key_index(e, other);
                            assert(e[p].0 == other);
                            assert(p != 0);
                            assert(crate::sorted_map::keys_increasing::<String, SyntaxOrigin>(e));
                            assert(<String as crate::sorted_map::SortKey>::key_lt(e[0].0, e[p].0));
                        }
                    }
                    Some((fields.key_at(0), fields.value_at(0)))
                }
            },
            None => None,
        }
    }
}

/// `m` keeping only the keys whose obligation is not owned by `scope`.
pub open spec fn obligations_outside(
    m: Map<SymbolId, RecoverableEventualObligationView>,
    scope: ScopeId,
) -> Map<SymbolId, RecoverableEventualObligationView> {
    Map::new(|k: SymbolId| m.contains_key(k) && m[k].owner_scope != scope, |k: SymbolId| m[k])
}

/// Whether an ownership event at `origin` lies in `file` at or before
/// `(line, column)`.
pub open spec fn event_at_or_before(
    origin: SyntaxOriginView,
    file: Seq<char>,
    line: usize,
    column: usize,
) -> bool {
    &&& origin.file == Some(file)
    &&& (origin.line < line || (origin.line == line && origin.column <= column))
}

/// Position order on `(line, column)`.
pub open spec fn position_le(a: SyntaxOriginView, b: SyntaxOriginView) -> bool {
    a.line < b.line || (a.line == b.line && a.column <= b.column)
}

/// Position `j` holds the latest event in `file` at or before
/// `(line, column)`; among equally late events, the last recorded.
pub open spec fn is_latest_event_before(
    events: Seq<OwnershipEventView>,
    j: int,
    file: Seq<char>,
    line: usize,
    column: usize,
) -> bool {
    &&& 0 <= j < events.len()
    &&& event_at_or_before(events[j].origin, file, line, column)
    &&& forall|k: int|
        0 <= k < events.len() && event_at_or_before(events[k].origin, file, line, column)
            ==> position_le(events[k].origin, events[j].origin) && (k > j ==> !position_le(
            events[j].origin,
            events[k].origin,
        ))
}

impl TypedProgram {
    fn mark_eventual_consumed(&mut self, symbol: SymbolId, origin: SyntaxOrigin, kind: EventualMoveKind)
        ensures
            first_deferred_use(old(self).ownership(), symbol) is Some ==> final(self).ownership() == (
            OwnershipView {
                conflict: conflict_after(old(self).ownership(), symbol, origin@),
                ..old(self).ownership()
            }),
            first_deferred_use(old(self).ownership(), symbol) is None ==> final(self).ownership() == (
            OwnershipView {
                eventual_moves: if old(self).ownership().moved_bindings.contains_key(symbol) {
                    old(self).ownership().eventual_moves
                } else {
                    old(self).ownership().eventual_moves.insert(symbol, kind)
                },
                history: history_with(
                    old(self).ownership().history,
                    symbol,
                    OwnershipEventView { kind: OwnershipEventKind::Move, origin: origin@ },
                ),
                moved_bindings: or_insert(old(self).ownership().moved_bindings, symbol, origin@),
                obligations: old(self).ownership().obligations.remove(symbol),
                ..old(self).ownership()
            }),
            final(self).facts() == old(self).facts(),
            final(self).symbol_facts() == old(self).symbol_facts(),
    {
        if self.record_deferred_transfer_conflict(symbol, origin.copy()) {
            return ;
        }
        if !self.moved_bindings.contains_key(&symbol) {
            let ghost e0 = self.eventual_moves;
            self.eventual_moves.insert(symbol, kind);
            proof {
                SortedMap::<SymbolId, EventualMoveKind>::lemma_deep_insert(
                    &e0,
                    &self.eventual_moves,
                    symbol,
                    kind,
                );
            }
        }
        let ghost mid = self.ownership();
        self.record_ownership_event(symbol, OwnershipEventKind::Move, origin.copy());
        if !self.moved_bindings.contains_key(&symbol) {
            let ghost b0 = self.moved_bindings;
            let ghost origin_g = origin;
            self.moved_bindings.insert(symbol, origin);
            proof {
                SortedMap::<SymbolId, SyntaxOrigin>::lemma_deep_insert(
                    &b0,
                    &self.moved_bindings,
                    symbol,
                    origin_g,
                );
            }
        }
        let ghost o0 = self.recoverable_eventual_obligations;
        self.recoverable_eventual_obligations.remove(&symbol);
        proof {
            SortedMap::<SymbolId, RecoverableEventualObligation>::lemma_deep_remove(
                &o0,
                &self.recoverable_eventual_obligations,
                symbol,
            );
            assert(self.ownership() =~= (OwnershipView {
                eventual_moves: if old(self).ownership().moved_bindings.contains_key(symbol) {
                    old(self).ownership().eventual_moves
                } else {
                    old(self).ownership().eventual_moves.insert(symbol, kind)
                },
                history: history_with(
                    old(self).ownership().history,
                    symbol,
                    OwnershipEventView { kind: OwnershipEventKind::Move, origin: origin@ },
                ),
                moved_bindings: or_insert(old(self).ownership().moved_bindings, symbol, origin@),
                obligations: old(self).ownership().obligations.remove(symbol),
                ..old(self).ownership()
            }));
        }
    }

    /// Consumes the eventual `symbol` by transferring it: like a whole-binding
    /// move, and it discharges the binding's recoverable obligation. The first
    /// consumption of a binding not yet moved decides its recorded kind.
    pub fn mark_eventual_transferred(&mut self, symbol: SymbolId, origin: SyntaxOrigin)
        ensures
            first_deferred_use(old(self).ownership(), symbol) is Some ==> final(self).ownership() == (
            OwnershipView {
                conflict: conflict_after(old(self).ownership(), symbol, origin@),
                ..old(self).ownership()
            }),
            first_deferred_use(old(self).ownership(), symbol) is None ==> final(self).ownership() == (
            OwnershipView {
                eventual_moves: if old(self).ownership().moved_bindings.contains_key(symbol) {
                    old(self).ownership().eventual_moves
                } else {
                    old(self).ownership().eventual_moves.insert(symbol, EventualMoveKind::Transfer)
                },
                history: history_with(
                    old(self).ownership().history,
                    symbol,
                    OwnershipEventView { kind: OwnershipEventKind::Move, origin: origin@ },
                ),
                moved_bindings: or_insert(old(self).ownership().moved_bindings, symbol, origin@),
                obligations: old(self).ownership().obligations.remove(symbol),
                ..old(self).ownership()
            }),
            final(self).facts() == old(self).facts(),
            final(self).symbol_facts() == old(self).symbol_facts(),
    {
        self.mark_eventual_consumed(symbol, origin, EventualMoveKind::Transfer)
    }

    /// Consumes the eventual `symbol` by awaiting it; otherwise as
    /// `mark_eventual_transferred`.
    pub fn mark_eventual_awaited(&mut self, symbol: SymbolId, origin: SyntaxOrigin)
        ensures
            first_deferred_use(old(self).ownership(), symbol) is Some ==> final(self).ownership() == (
            OwnershipView {
                conflict: conflict_after(old(self).ownership(), symbol, origin@),
                ..old(self).ownership()
            }),
            first_deferred_use(old(self).ownership(), symbol) is None ==> final(self).ownership() == (
            OwnershipView {
                eventual_moves: if old(self).ownership().moved_bindings.contains_key(symbol) {
                    old(self).ownership().eventual_moves
                } else {
                    old(self).ownership().eventual_moves.insert(symbol, EventualMoveKind::Await)
                },
                history: history_with(
                    old(self).ownership().history,
                    symbol,
                    OwnershipEventView { kind: OwnershipEventKind::Move, origin: origin@ },
                ),
                moved_bindings: or_insert(old(self).ownership().moved_bindings, symbol, origin@),
                obligations: old(self).ownership().obligations.remove(symbol),
                ..old(self).ownership()
            }),
            final(self).facts() == old(self).facts(),
            final(self).symbol_facts() == old(self).symbol_facts(),
    {
        self.mark_eventual_consumed(symbol, origin, EventualMoveKind::Await)
    }

    /// How the eventual `symbol` was consumed, while it is.
    pub fn eventual_move_kind(&self, symbol: SymbolId) -> (r: Option<EventualMoveKind>)
        ensures
            match r {
                Some(k) => self.ownership().eventual_moves.contains_key(symbol)
                    && k == self.ownership().eventual_moves[symbol],
                None => !self.ownership().eventual_moves.contains_key(symbol),
            },
    {
        match self.eventual_moves.get(&symbol) {
            Some(k) => Some(*k),
            None => None,
        }
    }

    /// Records that the recoverable eventual `symbol` must be handled
    /// before `owner_scope` ends.
    pub fn register_recoverable_eventual_obligation(
        &mut self,
        symbol: SymbolId,
        owner_scope: ScopeId,
        activation_scope: ScopeId,
        origin: Option<SyntaxOrigin>,
    )
        ensures
            final(self).ownership() == (OwnershipView {
                obligations: old(self).ownership().obligations.insert(
                    symbol,
                    RecoverableEventualObligationView {
                        owner_scope,
                        activation_scope,
                        origin: match origin {
                            Some(o) => Some(o@),
                            None => None,
                        },
                    },
                ),
                ..old(self).ownership()
            }),
            final(self).facts() == old(self).facts(),
            final(self).symbol_facts() == old(self).symbol_facts(),
    {
        let obligation = RecoverableEventualObligation { owner_scope, activation_scope, origin };
        let ghost o0 = self.recoverable_eventual_obligations;
        let ghost og = obligation;
        self.recoverable_eventual_obligations.insert(symbol, obligation);
        proof {
            SortedMap::<SymbolId, RecoverableEventualObligation>::lemma_deep_insert(
                &o0,
                &self.recoverable_eventual_obligations,
                symbol,
                og,
            );
            assert(self.ownership() =~= (OwnershipView {
                obligations: old(self).ownership().obligations.insert(symbol, og.deep_view()),
                ..old(self).ownership()
            }));
        }
    }

    /// The pending obligation of `symbol`.
    pub fn recoverable_eventual_obligation(&self, symbol: SymbolId) -> (r: Option<
        &RecoverableEventualObligation,
    >)
        ensures
            match r {
                Some(o) => self.ownership().obligations.contains_key(symbol) && o.deep_view()
                    == self.ownership().obligations[symbol],
                None => !self.ownership().obligations.contains_key(symbol),
            },
    {
        self.recoverable_eventual_obligations.get(&symbol)
    }

    /// Drops the obligations owned by `scope`.
    pub fn release_recoverable_eventual_obligations_in_scope(&mut self, scope: ScopeId)
        ensures
            final(self).ownership() == (OwnershipView {
                obligations: obligations_outside(old(self).ownership().obligations, scope),
                ..old(self).ownership()
            }),
            final(self).facts() == old(self).facts(),
            final(self).symbol_facts() == old(self).symbol_facts(),
    {
        let m = &self.recoverable_eventual_obligations;
        let ghost e = m.entries();
        m.is_well_formed();
        let mut doomed: Vec<SymbolId> = Vec::new();
        let mut i: usize = 0;
        while i < m.len()
            invariant
                i <= e.len(),
                e == m.entries(),
                m.wf(),
                forall|x: SymbolId|
                    #[trigger] crate::sorted_map::key_views(doomed@).to_set().contains(x) <==> (
                    exists|j: int|
                        0 <= j < i && e[j].0 == x && e[j].1.owner_scope == scope),
            decreases e.len() - i,
        {
            let ghost d0 = doomed@;
            if m.value_at(i).owner_scope.0 == scope.0 {
                doomed.push(*m.key_at(i));
            }
            proof {
                assert forall|x: SymbolId|
                    #[trigger] crate::sorted_map::key_views(doomed@).to_set().contains(x) <==> (
                    exists|j: int|
                        0 <= j < i + 1 && e[j].0 == x && e[j].1.owner_scope == scope) by {
                    let dv = crate::sorted_map::key_views(doomed@);
                    let d0v = crate::sorted_map::key_views(d0);
                    if dv.to_set().contains(x) {
                        let q = choose|q: int| 0 <= q < dv.len() && dv[q] == x;
                        if q < d0v.len() {
                            assert(d0v[q] == x);
                            assert(d0v.to_set().contains(x));
                        } else {
                            assert(e[i as int].0 == x);
                        }
                    }
                    if exists|j: int| 0 <= j < i + 1 && e[j].0 == x && e[j].1.owner_scope == scope {
                        let j = choose|j: int| 0 <= j < i + 1 && e[j].0 == x && e[j].1.owner_scope == scope;
                        if j < i {
                            assert(d0v.to_set().contains(x));
                            let q = choose|q: int| 0 <= q < d0v.len() && d0v[q] == x;
                            assert(dv[q] == x);
                        } else {
                            assert(dv[dv.len() - 1] == x);
                        }
                    }
                }
            }
            i = i + 1;
        }
        let ghost o0 = self.recoverable_eventual_obligations;
        self.recoverable_eventual_obligations.remove_keys(&doomed);
        proof {
            let gone = crate::sorted_map::key_views(doomed@).to_set();
            SortedMap::<SymbolId, RecoverableEventualObligation>::lemma_deep_remove_keys(
                &o0,
                &self.recoverable_eventual_obligations,
                gone,
            );
            let old_m = old(self).ownership().obligations;
            assert forall|x: SymbolId| #[trigger] gone.contains(x) == (old_m.contains_key(x) && old_m[x].owner_scope == scope) by {
                if gone.contains(x) {
                    let j = choose|j: int| 0 <= j < e.len() && e[j].0 == x && e[j].1.owner_scope == scope;
                    crate::sorted_map::lemma_key_position::<SymbolId, RecoverableEventualObligation>(e, j);
                }
                if old_m.contains_key(x) && old_m[x].owner_scope == scope {
                    let j = crate::sorted_map::seq_key_index(e, x);
                    crate::sorted_map::lemma_key_position::<SymbolId, RecoverableEventualObligation>(e, j);
                }
            }
            assert(self.recoverable_eventual_obligations.deep_view() =~= obligations_outside(old_m, scope));
            assert(self.ownership() =~= (OwnershipView {
                obligations: obligations_outside(old_m, scope),
                ..old(self).ownership()
            }));
        }
    }

    /// Takes the pending deferred-transfer conflict, leaving none.
    pub fn take_deferred_transfer_conflict(&mut self) -> (r: Option<DeferredTransferConflict>)
        ensures
            match r {
                Some(c) => old(self).ownership().conflict == Some(c.deep_view()),
                None => old(self).ownership().conflict is None,
            },
            final(self).ownership() == (OwnershipView { conflict: None, ..old(self).ownership() }),
            final(self).facts() == old(self).facts(),
            final(self).symbol_facts() == old(self).symbol_facts(),
    {
        let r = self.deferred_transfer_conflict.take();
        proof {
            assert(self.ownership() =~= (OwnershipView { conflict: None, ..old(self).ownership() }));
        }
        r
    }

    /// The origin of the latest move of `symbol` in `file` at or before
    /// `(line, column)`, unless the latest such event reinitialized it.
    pub fn moved_binding_origin_at(&self, symbol: SymbolId, file: &str, line: usize, column: usize) -> (r:
        Option<&SyntaxOrigin>)
        ensures
            match r {
                Some(o) => self.ownership().history.contains_key(symbol) && exists|j: int|
                    is_latest_event_before(self.ownership().history[symbol], j, file@, line, column)
                        && self.ownership().history[symbol][j].kind == OwnershipEventKind::Move
                        && self.ownership().history[symbol][j].origin == o@,
                None => !self.ownership().history.contains_key(symbol) || forall|j: int|
                    is_latest_event_before(self.ownership().history[symbol], j, file@, line, column)
                        ==> self.ownership().history[symbol][j].kind
                        == OwnershipEventKind::Reinitialize,
            },
    {
        let events = match self.ownership_history.get(&symbol) {
            Some(e) => e,
            None => {
                return None;
            },
        };
        let ghost ev = events.deep_view();
        let name = crate::text::owned(file);
        let mut best: Option<usize> = None;
        let mut i: usize = 0;
        while i < events.len()
            invariant
                i <= events@.len(),
                ev == events.deep_view(),
                name@ == file@,
                match best {
                    Some(b) => b < i && event_at_or_before(ev[b as int].origin, file@, line, column)
                        && forall|k: int|
                        0 <= k < i && event_at_or_before(ev[k].origin, file@, line, column)
                            ==> position_le(ev[k].origin, ev[b as int].origin) && (k > b
                            ==> !position_le(ev[b as int].origin, ev[k].origin)),
                    None => forall|k: int|
                        0 <= k < i ==> !event_at_or_before(ev[k].origin, file@, line, column),
                },
            decreases events@.len() - i,
        {
            let o = &events[i].origin;
            proof {
                assert(ev[i as int] == events@[i as int].deep_view());
            }
            let in_file = match &o.file {
                Some(f) => f.eq(&name),
                None => false,
            };
            let before = o.line < line || (o.line == line && o.column <= column);
            if in_file && before {
                let later = match best {
                    None => true,
                    Some(b) => {
                        let ob = &events[b].origin;
                        proof {
                            assert(ev[b as int] == events@[b as int].deep_view());
                        }
                        ob.line < o.line || (ob.line == o.line && ob.column <= o.column)
                    },
                };
                if later {
                    best = Some(i);
                }
            }
            i = i + 1;
        }
        match best {
            None => None,
            Some(b) => {
                proof {
                    assert(ev[b as int] == events@[b as int].deep_view());
                    assert(is_latest_event_before(ev, b as int, file@, line, column));
                    assert forall|j: int| is_latest_event_before(ev, j, file@, line, column) implies j
                        == b as int by {
                        if j < b {
                            assert(!position_le(ev[j].origin, ev[b as int].origin));
                        } else if j > b {
                            assert(!position_le(ev[b as int].origin, ev[j].origin));
                        }
                    }
                }
                match events[b].kind {
                    OwnershipEventKind::Move => Some(&events[b].origin),
                    OwnershipEventKind::Reinitialize => None,
                }
            },
        }
    }
}

/// Reinitializing a binding undoes its move: moving and then
/// reinitializing leaves the moved bindings as reinitializing alone does,
/// and the binding no longer counts as moved.
pub proof fn law_reinitializing_undoes_a_move(
    moved: Map<SymbolId, SyntaxOriginView>,
    symbol: SymbolId,
    origin: SyntaxOriginView,
)
    ensures
        or_insert(moved, symbol, origin).remove(symbol) == moved.remove(symbol),
        !or_insert(moved, symbol, origin).remove(symbol).contains_key(symbol),
{
    assert(or_insert(moved, symbol, origin).remove(symbol) =~= moved.remove(symbol));
}

/// A binding moved twice keeps the origin of its first move.
pub proof fn law_first_move_is_kept(
    moved: Map<SymbolId, SyntaxOriginView>,
    symbol: SymbolId,
    first: SyntaxOriginView,
    second: SyntaxOriginView,
)
    requires
        !moved.contains_key(symbol),
    ensures
        or_insert(or_insert(moved, symbol, first), symbol, second)[symbol] == first,
{
}

/// Leaving a scope drops every obligation that scope owns and keeps all
/// the others unchanged.
pub proof fn law_scope_exit_drops_its_obligations(
    obligations: Map<SymbolId, RecoverableEventualObligationView>,
    scope: ScopeId,
)
    ensures
        forall|k: SymbolId| #[trigger]
            obligations_outside(obligations, scope).contains_key(k) ==> obligations_outside(
                obligations,
                scope,
            )[k].owner_scope != scope,
        forall|k: SymbolId|
            #[trigger] obligations.contains_key(k) && obligations[k].owner_scope != scope
                ==> obligations_outside(obligations, scope).contains_key(k) && obligations_outside(
                obligations,
                scope,
            )[k] == obligations[k],
{
}

} // verus!
