//! What the checker records about symbols, capability claims, finalizing
//! types, method-call targets and shell types, and the queries on it.
use crate::errors::{TypecheckError, TypecheckErrorKind, TypecheckErrorView};
use crate::ids::{IntrinsicId, ReferenceId, SourceUnitId, SymbolId, SyntaxNodeId};
use crate::model::{
    layout_view, RecordFieldLayout, RecoverableCallEffect, TypedConformance, TypedNode, TypedProgram,
    ParsedSourceUnitKind, TypedReference, TypedSourceUnit, TypedSourceUnitView, TypedSymbol,
    units_view,
};
use crate::ownership::FactsView;
use crate::sorted_map::{lemma_key_position, seq_key_index, seq_to_map, SortKey, SortedMap};
use crate::types::{CheckedType, CheckedTypeId, CheckedTypeView, RoutineType};
use vstd::prelude::*;

verus! {

/// `sets` with `member` added to the set of `key`.
pub open spec fn with_member(
    sets: Map<SymbolId, Set<Seq<char>>>,
    key: SymbolId,
    member: Seq<char>,
) -> Map<SymbolId, Set<Seq<char>>> {
    sets.insert(
        key,
        if sets.contains_key(key) {
            sets[key]
        } else {
            Set::empty()
        }.insert(member),
    )
}

/// The type a walk towards a finalizing declaration goes to from type
/// `id`: the inside of an owned or borrowed shell, or the type a named type
/// is declared as (when that is another type).
pub open spec fn fin_step(
    facts: FactsView,
    symbols: Map<SymbolId, TypedSymbol>,
    id: CheckedTypeId,
) -> Option<CheckedTypeId> {
    if id.0 < facts.types.len() {
        match facts.types[id.0 as int] {
            CheckedTypeView::Owned { inner } => Some(inner),
            CheckedTypeView::Borrowed { inner, .. } => Some(inner),
            CheckedTypeView::Declared { symbol, .. } => {
                if symbols.contains_key(symbol) && (symbols[symbol].declared_type matches Some(d)
                    && d != id) {
                    symbols[symbol].declared_type
                } else {
                    None
                }
            },
            _ => None,
        }
    } else {
        None
    }
}

/// Whether the walk from type `id`, having passed the types in `visiting`,
/// reaches a type whose declaration claims `fin` before it ends or comes
/// back to a type it passed.
pub open spec fn fin_within(
    facts: FactsView,
    symbols: Map<SymbolId, TypedSymbol>,
    id: CheckedTypeId,
    visiting: Set<CheckedTypeId>,
) -> bool
    decreases crate::shapes::unvisited(visiting),
{
    if visiting.contains(id) {
        false
    } else if facts.fin_types.contains(id) {
        true
    } else {
        match fin_step(facts, symbols, id) {
            Some(next) => {
                proof {
                    crate::shapes::lemma_visit_shrinks(visiting, id);
                }
                fin_within(facts, symbols, next, visiting.insert(id))
            },
            None => false,
        }
    }
}

/// Whether type `id` resolves to a type whose declaration claims `fin`: it
/// claims it itself, or, peeling any number of owned and borrowed shells
/// and following named types to the types they are declared as, the walk
/// reaches one that does.
pub open spec fn resolves_to_fin(
    facts: FactsView,
    symbols: Map<SymbolId, TypedSymbol>,
    id: CheckedTypeId,
) -> bool {
    fin_within(facts, symbols, id, Set::empty())
}

impl TypedProgram {
    /// Records what the checker knows of a symbol, replacing what it knew.
    pub fn insert_typed_symbol(&mut self, symbol: TypedSymbol)
        ensures
            final(self).symbol_facts() == old(self).symbol_facts().insert(symbol.symbol_id, symbol),
            final(self).facts() == old(self).facts(),
            final(self).ownership() == old(self).ownership(),
    {
        let ghost s0 = *old(self);
        let id = symbol.symbol_id;
        self.symbols.insert(id, symbol);
        proof {
            s0.lemma_state_fields();
            self.lemma_state_fields();
        }
    }

    /// Records `type_id` as the declared type of `symbol_id`, when the
    /// checker knows that symbol, and says whether it did.
    pub fn set_declared_type(&mut self, symbol_id: SymbolId, type_id: CheckedTypeId) -> (r: bool)
        ensures
            r == old(self).symbol_facts().contains_key(symbol_id),
            final(self).symbol_facts() == if r {
                old(self).symbol_facts().insert(
                    symbol_id,
                    TypedSymbol { declared_type: Some(type_id), ..old(self).symbol_facts()[symbol_id] },
                )
            } else {
                old(self).symbol_facts()
            },
            final(self).facts() == old(self).facts(),
            final(self).ownership() == old(self).ownership(),
    {
        let ghost s0 = *old(self);
        proof {
            s0.lemma_state_fields();
        }
        match self.symbols.remove(&symbol_id) {
            Some(mut symbol) => {
                symbol.declared_type = Some(type_id);
                self.symbols.insert(symbol_id, symbol);
                proof {
                    self.lemma_state_fields();
                    assert(self.symbols.as_map() =~= s0.symbols.as_map().insert(
                        symbol_id,
                        TypedSymbol { declared_type: Some(type_id), ..s0.symbols.as_map()[symbol_id] },
                    ));
                }
                true
            },
            None => {
                proof {
                    self.lemma_state_fields();
                    assert(self.symbols.as_map() =~= s0.symbols.as_map());
                }
                false
            },
        }
    }

    /// Marks `symbol_id` as a lifetime-scoped mutex guard binding, when the
    /// checker knows that symbol, and says whether it did.
    pub fn set_mutex_guard(&mut self, symbol_id: SymbolId) -> (r: bool)
        ensures
            r == old(self).symbol_facts().contains_key(symbol_id),
            final(self).symbol_facts() == if r {
                old(self).symbol_facts().insert(
                    symbol_id,
                    TypedSymbol { is_mutex_guard: true, ..old(self).symbol_facts()[symbol_id] },
                )
            } else {
                old(self).symbol_facts()
            },
            final(self).facts() == old(self).facts(),
            final(self).ownership() == old(self).ownership(),
    {
        let ghost s0 = *old(self);
        proof {
            s0.lemma_state_fields();
        }
        match self.symbols.remove(&symbol_id) {
            Some(mut symbol) => {
                symbol.is_mutex_guard = true;
                self.symbols.insert(symbol_id, symbol);
                proof {
                    self.lemma_state_fields();
                    assert(self.symbols.as_map() =~= s0.symbols.as_map().insert(
                        symbol_id,
                        TypedSymbol { is_mutex_guard: true, ..s0.symbols.as_map()[symbol_id] },
                    ));
                }
                true
            },
            None => {
                proof {
                    self.lemma_state_fields();
                    assert(self.symbols.as_map() =~= s0.symbols.as_map());
                }
                false
            },
        }
    }

    /// What the checker knows of `symbol_id`.
    pub fn typed_symbol(&self, symbol_id: SymbolId) -> (r: Option<&TypedSymbol>)
        ensures
            match r {
                Some(s) => self.symbol_facts().contains_key(symbol_id) && *s
                    == self.symbol_facts()[symbol_id],
                None => !self.symbol_facts().contains_key(symbol_id),
            },
    {
        proof {
            self.lemma_state_fields();
        }
        self.symbols.get(&symbol_id)
    }

    /// Records that the declaration of `type_symbol` claims `capability`.
    pub fn record_capability_claim(&mut self, type_symbol: SymbolId, capability: String)
        ensures
            final(self).facts() == (FactsView {
                capability_claims: with_member(
                    old(self).facts().capability_claims,
                    type_symbol,
                    capability@,
                ),
                ..old(self).facts()
            }),
            final(self).ownership() == old(self).ownership(),
            final(self).symbol_facts() == old(self).symbol_facts(),
    {
        let ghost s0 = *old(self);
        let ghost c0 = self.capability_claims;
        let removed = self.capability_claims.remove(&type_symbol);
        let ghost c1 = self.capability_claims;
        let mut set = match removed {
            Some(s) => s,
            None => SortedMap::new(),
        };
        let ghost cap = capability@;
        set.insert(capability, ());
        let ghost set_g = set;
        self.capability_claims.insert(type_symbol, set);
        proof {
            s0.lemma_state_fields();
            self.lemma_state_fields();
            assert(self.capability_claims.as_map() =~= c0.as_map().insert(type_symbol, set_g));
            let before = c0.deep_view().map_values(|m: Map<Seq<char>, ()>| m.dom());
            let want = with_member(before, type_symbol, cap);
            let now = self.capability_claims.deep_view().map_values(|m: Map<Seq<char>, ()>| m.dom());
            assert(now.contains_key(type_symbol));
            assert(now[type_symbol] =~= want[type_symbol]);
            assert(now =~= want);
            assert(self.facts() =~= (FactsView { capability_claims: want, ..s0.facts() }));
        }
    }

    /// The capability standards the declaration of `type_symbol` claims.
    pub fn capability_claims(&self, type_symbol: SymbolId) -> (r: Option<&SortedMap<String, ()>>)
        ensures
            match r {
                Some(m) => self.facts().capability_claims.contains_key(type_symbol)
                    && m.as_map().dom() == self.facts().capability_claims[type_symbol],
                None => !self.facts().capability_claims.contains_key(type_symbol),
            },
    {
        proof {
            self.lemma_state_fields();
        }
        let r = self.capability_claims.get(&type_symbol);
        proof {
            match r {
                Some(m) => {
                    assert(m.as_map().dom() =~= m.deep_view().dom());
                },
                None => {},
            }
        }
        r
    }

    /// Records that generic parameter `generic_symbol` is bounded by
    /// `capability`.
    pub fn record_generic_capability_constraint(&mut self, generic_symbol: SymbolId, capability: String)
        ensures
            final(self).facts() == (FactsView {
                generic_capability_constraints: with_member(
                    old(self).facts().generic_capability_constraints,
                    generic_symbol,
                    capability@,
                ),
                ..old(self).facts()
            }),
            final(self).ownership() == old(self).ownership(),
            final(self).symbol_facts() == old(self).symbol_facts(),
    {
        let ghost s0 = *old(self);
        let ghost c0 = self.generic_capability_constraints;
        let removed = self.generic_capability_constraints.remove(&generic_symbol);
        let mut set = match removed {
            Some(s) => s,
            None => SortedMap::new(),
        };
        let ghost cap = capability@;
        set.insert(capability, ());
        let ghost set_g = set;
        self.generic_capability_constraints.insert(generic_symbol, set);
        proof {
            s0.lemma_state_fields();
            self.lemma_state_fields();
            assert(self.generic_capability_constraints.as_map() =~= c0.as_map().insert(
                generic_symbol,
                set_g,
            ));
            let before = c0.deep_view().map_values(|m: Map<Seq<char>, ()>| m.dom());
            let want = with_member(before, generic_symbol, cap);
            let now = self.generic_capability_constraints.deep_view().map_values(
                |m: Map<Seq<char>, ()>| m.dom(),
            );
            assert(now.contains_key(generic_symbol));
            assert(now[generic_symbol] =~= want[generic_symbol]);
            assert(now =~= want);
            assert(self.facts() =~= (FactsView {
                generic_capability_constraints: want,
                ..s0.facts()
            }));
        }
    }

    /// The capability bounds on generic parameter `generic_symbol`.
    pub fn generic_capability_constraints(&self, generic_symbol: SymbolId) -> (r: Option<
        &SortedMap<String, ()>,
    >)
        ensures
            match r {
                Some(m) => self.facts().generic_capability_constraints.contains_key(generic_symbol)
                    && m.as_map().dom() == self.facts().generic_capability_constraints[generic_symbol],
                None => !self.facts().generic_capability_constraints.contains_key(generic_symbol),
            },
    {
        proof {
            self.lemma_state_fields();
        }
        let r = self.generic_capability_constraints.get(&generic_symbol);
        proof {
            match r {
                Some(m) => {
                    assert(m.as_map().dom() =~= m.deep_view().dom());
                },
                None => {},
            }
        }
        r
    }

    /// Records that the declaration of type `type_id` claims `fin`.
    pub fn record_fin_type(&mut self, type_id: CheckedTypeId)
        ensures
            final(self).facts() == (FactsView {
                fin_types: old(self).facts().fin_types.insert(type_id),
                ..old(self).facts()
            }),
            final(self).ownership() == old(self).ownership(),
            final(self).symbol_facts() == old(self).symbol_facts(),
    {
        let ghost s0 = *old(self);
        let ghost m0 = self.fin_types;
        self.fin_types.insert(type_id, ());
        proof {
            SortedMap::<CheckedTypeId, ()>::lemma_deep_insert(&m0, &self.fin_types, type_id, ());
            s0.lemma_state_fields();
            self.lemma_state_fields();
            assert(self.facts() =~= (FactsView {
                fin_types: s0.facts().fin_types.insert(type_id),
                ..s0.facts()
            }));
        }
    }

    /// Whether the declaration of exactly type `type_id` claims `fin`.
    pub fn type_claims_fin(&self, type_id: CheckedTypeId) -> (r: bool)
        ensures
            r == self.facts().fin_types.contains(type_id),
    {
        proof {
            self.lemma_state_fields();
        }
        self.fin_types.contains_key(&type_id)
    }

    /// Whether `type_id` resolves to a type whose declaration claims `fin`,
    /// peeling owned and borrowed shells and following named types to the
    /// types they are declared as, as far as the walk goes.
    pub fn type_resolves_to_fin(&self, type_id: CheckedTypeId) -> (r: bool)
        ensures
            r == resolves_to_fin(self.facts(), self.symbol_facts(), type_id),
    {
        proof {
            self.lemma_state_fields();
        }
        let ghost f = self.facts();
        let ghost sy = self.symbol_facts();
        let mut visited: SortedMap<CheckedTypeId, ()> = SortedMap::new();
        let mut current = type_id;
        proof {
            assert(visited.as_map().dom() =~= Set::<CheckedTypeId>::empty());
        }
        loop
            invariant
                f == self.facts(),
                sy == self.symbol_facts(),
                fin_within(f, sy, type_id, Set::empty()) == fin_within(
                    f,
                    sy,
                    current,
                    visited.as_map().dom(),
                ),
            decreases crate::shapes::unvisited(visited.as_map().dom()),
        {
            if visited.contains_key(&current) {
                return false;
            }
            if self.type_claims_fin(current) {
                return true;
            }
            let next = match self.type_table().get(current) {
                Some(CheckedType::Owned { inner }) => Some(*inner),
                Some(CheckedType::Borrowed { inner, .. }) => Some(*inner),
                Some(CheckedType::Declared { symbol, .. }) => match self.typed_symbol(*symbol) {
                    Some(declared) => match declared.declared_type {
                        Some(d) => if d.0 != current.0 {
                            Some(d)
                        } else {
                            None
                        },
                        None => None,
                    },
                    None => None,
                },
                _ => None,
            };
            proof {
                assert(next == fin_step(f, sy, current));
            }
            match next {
                Some(n) => {
                    let ghost before = visited.as_map().dom();
                    visited.insert(current, ());
                    proof {
                        crate::shapes::lemma_visit_shrinks(before, current);
                        assert(visited.as_map().dom() =~= before.insert(current));
                    }
                    current = n;
                },
                None => {
                    return false;
                },
            }
        }
    }

    /// Records that the method call at `syntax_id` targets `symbol_id`.
    pub fn record_method_call_target(&mut self, syntax_id: SyntaxNodeId, symbol_id: SymbolId)
        ensures
            final(self).facts() == (FactsView {
                method_call_targets: old(self).facts().method_call_targets.insert(
                    syntax_id,
                    symbol_id,
                ),
                ..old(self).facts()
            }),
            final(self).ownership() == old(self).ownership(),
            final(self).symbol_facts() == old(self).symbol_facts(),
    {
        let ghost s0 = *old(self);
        let ghost m0 = self.method_call_targets;
        self.method_call_targets.insert(syntax_id, symbol_id);
        proof {
            SortedMap::<SyntaxNodeId, SymbolId>::lemma_deep_insert(
                &m0,
                &self.method_call_targets,
                syntax_id,
                symbol_id,
            );
            s0.lemma_state_fields();
            self.lemma_state_fields();
            assert(self.facts() =~= (FactsView {
                method_call_targets: s0.facts().method_call_targets.insert(syntax_id, symbol_id),
                ..s0.facts()
            }));
        }
    }

    /// The routine the method call at `syntax_id` targets.
    pub fn method_call_target(&self, syntax_id: SyntaxNodeId) -> (r: Option<SymbolId>)
        ensures
            match r {
                Some(s) => self.facts().method_call_targets.contains_key(syntax_id) && s
                    == self.facts().method_call_targets[syntax_id],
                None => !self.facts().method_call_targets.contains_key(syntax_id),
            },
    {
        proof {
            self.lemma_state_fields();
        }
        match self.method_call_targets.get(&syntax_id) {
            Some(s) => Some(*s),
            None => None,
        }
    }

    /// Every method call with its target, by call site in increasing order.
    pub fn method_call_targets(&self) -> (r: Vec<(SyntaxNodeId, SymbolId)>)
        ensures
            crate::sorted_map::keys_increasing::<SyntaxNodeId, SymbolId>(r@),
            crate::sorted_map::seq_to_map(r@) == self.facts().method_call_targets,
    {
        let m = &self.method_call_targets;
        m.is_well_formed();
        let ghost e = m.entries();
        proof {
            self.lemma_state_fields();
            m.lemma_deep_view_from_entries();
            assert(m.deep_entries() =~= e);
        }
        let mut out: Vec<(SyntaxNodeId, SymbolId)> = Vec::new();
        let mut i: usize = 0;
        while i < m.len()
            invariant
                i <= e.len(),
                e == m.entries(),
                out@ == e.take(i as int),
            decreases e.len() - i,
        {
            out.push((*m.key_at(i), *m.value_at(i)));
            proof {
                assert(e.take(i + 1) =~= e.take(i as int).push(e[i as int]));
            }
            i = i + 1;
        }
        proof {
            assert(e.take(i as int) =~= e);
        }
        out
    }

    /// Records that the method call at `syntax_id` targets a routine a
    /// generic constraint requires.
    pub fn record_constraint_call_site(&mut self, syntax_id: SyntaxNodeId)
        ensures
            final(self).facts() == (FactsView {
                constraint_call_sites: old(self).facts().constraint_call_sites.insert(syntax_id),
                ..old(self).facts()
            }),
            final(self).ownership() == old(self).ownership(),
            final(self).symbol_facts() == old(self).symbol_facts(),
    {
        let ghost s0 = *old(self);
        let ghost m0 = self.constraint_call_sites;
        self.constraint_call_sites.insert(syntax_id, ());
        proof {
            SortedMap::<SyntaxNodeId, ()>::lemma_deep_insert(
                &m0,
                &self.constraint_call_sites,
                syntax_id,
                (),
            );
            s0.lemma_state_fields();
            self.lemma_state_fields();
            assert(self.facts() =~= (FactsView {
                constraint_call_sites: s0.facts().constraint_call_sites.insert(syntax_id),
                ..s0.facts()
            }));
        }
    }

    /// Whether the method call at `syntax_id` targets a routine a generic
    /// constraint requires.
    pub fn is_constraint_call_site(&self, syntax_id: SyntaxNodeId) -> (r: bool)
        ensures
            r == self.facts().constraint_call_sites.contains(syntax_id),
    {
        proof {
            self.lemma_state_fields();
        }
        self.constraint_call_sites.contains_key(&syntax_id)
    }

    /// Records that shell type `shell_type` stands for `apparent_type`.
    pub fn record_apparent_type_override(&mut self, shell_type: CheckedTypeId, apparent_type: CheckedTypeId)
        ensures
            final(self).facts() == (FactsView {
                apparent_type_overrides: old(self).facts().apparent_type_overrides.insert(
                    shell_type,
                    apparent_type,
                ),
                ..old(self).facts()
            }),
            final(self).ownership() == old(self).ownership(),
            final(self).symbol_facts() == old(self).symbol_facts(),
    {
        let ghost s0 = *old(self);
        let ghost m0 = self.apparent_type_overrides;
        self.apparent_type_overrides.insert(shell_type, apparent_type);
        proof {
            SortedMap::<CheckedTypeId, CheckedTypeId>::lemma_deep_insert(
                &m0,
                &self.apparent_type_overrides,
                shell_type,
                apparent_type,
            );
            s0.lemma_state_fields();
            self.lemma_state_fields();
            assert(self.facts() =~= (FactsView {
                apparent_type_overrides: s0.facts().apparent_type_overrides.insert(
                    shell_type,
                    apparent_type,
                ),
                ..s0.facts()
            }));
        }
    }

    /// The type shell type `type_id` stands for, if one was recorded.
    pub fn apparent_type_override(&self, type_id: CheckedTypeId) -> (r: Option<CheckedTypeId>)
        ensures
            match r {
                Some(t) => self.facts().apparent_type_overrides.contains_key(type_id) && t
                    == self.facts().apparent_type_overrides[type_id],
                None => !self.facts().apparent_type_overrides.contains_key(type_id),
            },
    {
        proof {
            self.lemma_state_fields();
        }
        match self.apparent_type_overrides.get(&type_id) {
            Some(t) => Some(*t),
            None => None,
        }
    }
}

/// The node recorded for `syntax_id`, or a fresh one in `source_unit_id`
/// with nothing recorded yet.
pub open spec fn node_or_fresh(
    nodes: Map<SyntaxNodeId, TypedNode>,
    syntax_id: SyntaxNodeId,
    source_unit_id: SourceUnitId,
) -> TypedNode {
    if nodes.contains_key(syntax_id) {
        nodes[syntax_id]
    } else {
        TypedNode {
            syntax_id,
            source_unit_id,
            inferred_type: None,
            recoverable_effect: None,
            intrinsic_id: None,
        }
    }
}

impl TypedProgram {
    /// Replaces the node recorded for `syntax_id` by `node`.
    fn put_node(&mut self, syntax_id: SyntaxNodeId, node: TypedNode)
        ensures
            final(self).facts() == (FactsView {
                nodes: old(self).facts().nodes.insert(syntax_id, node),
                ..old(self).facts()
            }),
            final(self).ownership() == old(self).ownership(),
            final(self).symbol_facts() == old(self).symbol_facts(),
    {
        let ghost s0 = *old(self);
        self.nodes.insert(syntax_id, node);
        proof {
            s0.lemma_state_fields();
            self.lemma_state_fields();
            assert(self.facts() =~= (FactsView {
                nodes: s0.facts().nodes.insert(syntax_id, node),
                ..s0.facts()
            }));
        }
    }

    /// The node recorded for `syntax_id`, or a fresh one.
    fn node_for(&self, syntax_id: SyntaxNodeId, source_unit_id: SourceUnitId) -> (r: TypedNode)
        ensures
            r == node_or_fresh(self.facts().nodes, syntax_id, source_unit_id),
    {
        proof {
            self.lemma_state_fields();
        }
        match self.nodes.get(&syntax_id) {
            Some(n) => *n,
            None => TypedNode {
                syntax_id,
                source_unit_id,
                inferred_type: None,
                recoverable_effect: None,
                intrinsic_id: None,
            },
        }
    }

    /// Records that the node `syntax_id` has type `type_id`.
    pub fn record_node_type(
        &mut self,
        syntax_id: SyntaxNodeId,
        source_unit_id: SourceUnitId,
        type_id: CheckedTypeId,
    ) -> (r: Result<(), crate::errors::TypecheckError>)
        ensures
            r is Ok,
            final(self).facts() == (FactsView {
                nodes: old(self).facts().nodes.insert(
                    syntax_id,
                    TypedNode {
                        inferred_type: Some(type_id),
                        ..node_or_fresh(old(self).facts().nodes, syntax_id, source_unit_id)
                    },
                ),
                ..old(self).facts()
            }),
            final(self).ownership() == old(self).ownership(),
            final(self).symbol_facts() == old(self).symbol_facts(),
    {
        let mut node = self.node_for(syntax_id, source_unit_id);
        node.inferred_type = Some(type_id);
        self.put_node(syntax_id, node);
        Ok(())
    }

    /// Records the recoverable error the node `syntax_id` may propagate.
    pub fn record_node_recoverable_effect(
        &mut self,
        syntax_id: SyntaxNodeId,
        source_unit_id: SourceUnitId,
        effect: RecoverableCallEffect,
    ) -> (r: Result<(), crate::errors::TypecheckError>)
        ensures
            r is Ok,
            final(self).facts() == (FactsView {
                nodes: old(self).facts().nodes.insert(
                    syntax_id,
                    TypedNode {
                        recoverable_effect: Some(effect),
                        ..node_or_fresh(old(self).facts().nodes, syntax_id, source_unit_id)
                    },
                ),
                ..old(self).facts()
            }),
            final(self).ownership() == old(self).ownership(),
            final(self).symbol_facts() == old(self).symbol_facts(),
    {
        let mut node = self.node_for(syntax_id, source_unit_id);
        node.recoverable_effect = Some(effect);
        self.put_node(syntax_id, node);
        Ok(())
    }

    /// Records the intrinsic the node `syntax_id` calls.
    pub fn record_node_intrinsic(
        &mut self,
        syntax_id: SyntaxNodeId,
        source_unit_id: SourceUnitId,
        intrinsic_id: IntrinsicId,
    ) -> (r: Result<(), crate::errors::TypecheckError>)
        ensures
            r is Ok,
            final(self).facts() == (FactsView {
                nodes: old(self).facts().nodes.insert(
                    syntax_id,
                    TypedNode {
                        intrinsic_id: Some(intrinsic_id),
                        ..node_or_fresh(old(self).facts().nodes, syntax_id, source_unit_id)
                    },
                ),
                ..old(self).facts()
            }),
            final(self).ownership() == old(self).ownership(),
            final(self).symbol_facts() == old(self).symbol_facts(),
    {
        let mut node = self.node_for(syntax_id, source_unit_id);
        node.intrinsic_id = Some(intrinsic_id);
        self.put_node(syntax_id, node);
        Ok(())
    }

    /// What was recorded for the node `syntax_id`.
    pub fn typed_node(&self, syntax_id: SyntaxNodeId) -> (r: Option<&TypedNode>)
        ensures
            match r {
                Some(n) => self.facts().nodes.contains_key(syntax_id) && *n
                    == self.facts().nodes[syntax_id],
                None => !self.facts().nodes.contains_key(syntax_id),
            },
    {
        proof {
            self.lemma_state_fields();
        }
        self.nodes.get(&syntax_id)
    }

    /// Records the conformance claims of a type declaration, replacing
    /// earlier ones.
    pub fn record_typed_conformance(&mut self, conformance: TypedConformance)
        ensures
            final(self).facts() == (FactsView {
                conformances: old(self).facts().conformances.insert(
                    conformance.type_symbol_id,
                    conformance@,
                ),
                ..old(self).facts()
            }),
            final(self).ownership() == old(self).ownership(),
            final(self).symbol_facts() == old(self).symbol_facts(),
    {
        let ghost s0 = *old(self);
        let ghost c = conformance;
        let key = conformance.type_symbol_id;
        self.conformances.insert(key, conformance);
        proof {
            s0.lemma_state_fields();
            self.lemma_state_fields();
            assert(self.conformances.as_map().map_values(|t: TypedConformance| t@)
                =~= s0.conformances.as_map().map_values(|t: TypedConformance| t@).insert(key, c@));
            assert(self.facts() =~= (FactsView {
                conformances: s0.facts().conformances.insert(key, c@),
                ..s0.facts()
            }));
        }
    }

    /// The conformance claims of the type declared by `symbol_id`.
    pub fn typed_conformance(&self, symbol_id: SymbolId) -> (r: Option<&TypedConformance>)
        ensures
            match r {
                Some(c) => self.facts().conformances.contains_key(symbol_id) && c@
                    == self.facts().conformances[symbol_id],
                None => !self.facts().conformances.contains_key(symbol_id),
            },
    {
        proof {
            self.lemma_state_fields();
        }
        self.conformances.get(&symbol_id)
    }

    /// Records the declaration-order field layout of record type `type_id`.
    pub fn set_record_layout(&mut self, type_id: CheckedTypeId, layout: Vec<RecordFieldLayout>)
        ensures
            final(self).facts() == (FactsView {
                record_layouts: old(self).facts().record_layouts.insert(
                    type_id,
                    layout_view(layout@),
                ),
                ..old(self).facts()
            }),
            final(self).ownership() == old(self).ownership(),
            final(self).symbol_facts() == old(self).symbol_facts(),
    {
        let ghost s0 = *old(self);
        let ghost l = layout;
        self.record_layouts.insert(type_id, layout);
        proof {
            s0.lemma_state_fields();
            self.lemma_state_fields();
            assert(self.record_layouts.as_map().map_values(
                |v: Vec<RecordFieldLayout>| layout_view(v@),
            ) =~= s0.record_layouts.as_map().map_values(
                |v: Vec<RecordFieldLayout>| layout_view(v@),
            ).insert(type_id, layout_view(l@)));
            assert(self.facts() =~= (FactsView {
                record_layouts: s0.facts().record_layouts.insert(type_id, layout_view(l@)),
                ..s0.facts()
            }));
        }
    }

    /// The declaration-order field layout of record type `type_id`.
    pub fn record_layout(&self, type_id: CheckedTypeId) -> (r: Option<&[RecordFieldLayout]>)
        ensures
            match r {
                Some(fields) => self.facts().record_layouts.contains_key(type_id) && layout_view(
                    fields@,
                ) == self.facts().record_layouts[type_id],
                None => !self.facts().record_layouts.contains_key(type_id),
            },
    {
        proof {
            self.lemma_state_fields();
        }
        match self.record_layouts.get(&type_id) {
            Some(fields) => Some(fields.as_slice()),
            None => None,
        }
    }

    /// The signature recorded for the direct call at `syntax_id`, with its
    /// concrete default expressions.
    pub closed spec fn recorded_call_signature(&self, syntax_id: SyntaxNodeId) -> Option<RoutineType> {
        if self.call_signatures.as_map().contains_key(syntax_id) {
            Some(self.call_signatures.as_map()[syntax_id])
        } else {
            None
        }
    }

    /// Records the instantiated signature of the direct call at `syntax_id`.
    pub fn record_call_signature(&mut self, syntax_id: SyntaxNodeId, signature: RoutineType)
        ensures
            final(self).recorded_call_signature(syntax_id) == Some(signature),
            forall|other: SyntaxNodeId|
                other != syntax_id ==> #[trigger] final(self).recorded_call_signature(other)
                    == old(self).recorded_call_signature(other),
            final(self).facts() == (FactsView {
                call_signatures: old(self).facts().call_signatures.insert(syntax_id, signature@),
                ..old(self).facts()
            }),
            final(self).ownership() == old(self).ownership(),
            final(self).symbol_facts() == old(self).symbol_facts(),
    {
        let ghost s0 = *old(self);
        let ghost sig = signature;
        self.call_signatures.insert(syntax_id, signature);
        proof {
            s0.lemma_state_fields();
            self.lemma_state_fields();
            assert(self.call_signatures.as_map().map_values(|t: RoutineType| t@)
                =~= s0.call_signatures.as_map().map_values(|t: RoutineType| t@).insert(
                syntax_id,
                sig@,
            ));
            assert(self.facts() =~= (FactsView {
                call_signatures: s0.facts().call_signatures.insert(syntax_id, sig@),
                ..s0.facts()
            }));
        }
    }

    /// The instantiated signature of the direct call at `syntax_id`.
    pub fn call_signature(&self, syntax_id: SyntaxNodeId) -> (r: Option<&RoutineType>)
        ensures
            match r {
                Some(t) => self.facts().call_signatures.contains_key(syntax_id) && t@
                    == self.facts().call_signatures[syntax_id]
                    && self.recorded_call_signature(syntax_id) == Some(*t),
                None => !self.facts().call_signatures.contains_key(syntax_id)
                    && self.recorded_call_signature(syntax_id) is None,
            },
    {
        proof {
            self.lemma_state_fields();
        }
        self.call_signatures.get(&syntax_id)
    }

    /// Marks the generic instantiation `instance` as being expanded; returns
    /// false, changing nothing, when it already is (a recursive
    /// self-reference).
    pub fn begin_instantiation(&mut self, instance: CheckedTypeId) -> (r: bool)
        ensures
            r == !old(self).facts().active_instantiations.contains(instance),
            final(self).facts() == (FactsView {
                active_instantiations: old(self).facts().active_instantiations.insert(instance),
                ..old(self).facts()
            }),
            final(self).ownership() == old(self).ownership(),
            final(self).symbol_facts() == old(self).symbol_facts(),
    {
        let ghost s0 = *old(self);
        let earlier = self.active_instantiations.insert(instance, ());
        proof {
            s0.lemma_state_fields();
            self.lemma_state_fields();
            assert(self.facts() =~= (FactsView {
                active_instantiations: s0.facts().active_instantiations.insert(instance),
                ..s0.facts()
            }));
        }
        earlier.is_none()
    }

    /// Marks the expansion of the generic instantiation `instance` done.
    pub fn end_instantiation(&mut self, instance: CheckedTypeId)
        ensures
            final(self).facts() == (FactsView {
                active_instantiations: old(self).facts().active_instantiations.remove(instance),
                ..old(self).facts()
            }),
            final(self).ownership() == old(self).ownership(),
            final(self).symbol_facts() == old(self).symbol_facts(),
    {
        let ghost s0 = *old(self);
        self.active_instantiations.remove(&instance);
        proof {
            s0.lemma_state_fields();
            self.lemma_state_fields();
            assert(self.facts() =~= (FactsView {
                active_instantiations: s0.facts().active_instantiations.remove(instance),
                ..s0.facts()
            }));
        }
    }
}

/// The keys of `entries`, in order.
pub open spec fn entry_keys<V>(entries: Seq<(SymbolId, V)>) -> Seq<SymbolId> {
    entries.map_values(|e: (SymbolId, V)| e.0)
}

impl TypedProgram {
    /// The symbols the checker knows, in increasing order.
    pub closed spec fn symbol_order(&self) -> Seq<SymbolId> {
        entry_keys(self.symbols.entries())
    }

    /// The types with conformance claims, in increasing order of their
    /// symbols.
    pub closed spec fn conformance_order(&self) -> Seq<SymbolId> {
        entry_keys(self.conformances.entries())
    }

    /// What the checker knows of every symbol, in increasing symbol order.
    pub fn all_typed_symbols(&self) -> (r: Vec<&TypedSymbol>)
        ensures
            forall|i: int, j: int|
                0 <= i < j < self.symbol_order().len() ==> #[trigger] self.symbol_order()[i].0
                    < #[trigger] self.symbol_order()[j].0,
            forall|k: SymbolId|
                #[trigger] self.symbol_facts().contains_key(k) <==> self.symbol_order().contains(k),
            r@.len() == self.symbol_order().len(),
            forall|i: int|
                0 <= i < r@.len() ==> *r@[i] == self.symbol_facts()[#[trigger] self.symbol_order()[i]],
    {
        let m = &self.symbols;
        m.is_well_formed();
        let ghost e = m.entries();
        proof {
            self.lemma_state_fields();
            assert forall|i: int| 0 <= i < e.len() implies #[trigger] seq_to_map(e).contains_key(e[i].0)
                && seq_to_map(e)[e[i].0] == e[i].1 by {
                lemma_key_position::<SymbolId, TypedSymbol>(e, i);
            }
            assert forall|k: SymbolId| #[trigger] self.symbol_facts().contains_key(k)
                <==> self.symbol_order().contains(k) by {
                if self.symbol_facts().contains_key(k) {
                    let i = seq_key_index(e, k);
                    assert(self.symbol_order()[i] == k);
                }
                if self.symbol_order().contains(k) {
                    let i = choose|i: int| 0 <= i < self.symbol_order().len() && self.symbol_order()[i] == k;
                    assert(e[i].0 == k);
                }
            }
            assert forall|i: int, j: int|
                0 <= i < j < self.symbol_order().len() implies #[trigger] self.symbol_order()[i].0
                    < #[trigger] self.symbol_order()[j].0 by {
                assert(SymbolId::key_lt(e[i].0, e[j].0));
            }
        }
        let r = m.values();
        proof {
            assert forall|i: int| 0 <= i < r@.len() implies *r@[i] == seq_to_map(e)[#[trigger] self.symbol_order()[i]] by {
                assert(self.symbol_order()[i] == e[i].0);
                assert(seq_to_map(e).contains_key(e[i].0));
                assert(*r@[i] == e[i].1);
            }
        }
        r
    }

    /// The conformance claims of every type declaration that has some, in
    /// increasing order of the declared types' symbols.
    pub fn all_typed_conformances(&self) -> (r: Vec<&TypedConformance>)
        ensures
            forall|i: int, j: int|
                0 <= i < j < self.conformance_order().len() ==> #[trigger] self.conformance_order()[i].0
                    < #[trigger] self.conformance_order()[j].0,
            forall|k: SymbolId|
                #[trigger] self.facts().conformances.contains_key(k)
                    <==> self.conformance_order().contains(k),
            r@.len() == self.conformance_order().len(),
            forall|i: int|
                0 <= i < r@.len() ==> r@[i]@ == self.facts().conformances[#[trigger] self.conformance_order()[i]],
    {
        let m = &self.conformances;
        m.is_well_formed();
        let ghost e = m.entries();
        proof {
            self.lemma_state_fields();
            assert forall|i: int| 0 <= i < e.len() implies #[trigger] seq_to_map(e).contains_key(e[i].0)
                && seq_to_map(e)[e[i].0] == e[i].1 by {
                lemma_key_position::<SymbolId, TypedConformance>(e, i);
            }
            assert forall|k: SymbolId| #[trigger] self.facts().conformances.contains_key(k)
                <==> self.conformance_order().contains(k) by {
                if self.facts().conformances.contains_key(k) {
                    let i = seq_key_index(e, k);
                    assert(self.conformance_order()[i] == k);
                }
                if self.conformance_order().contains(k) {
                    let i = choose|i: int| 0 <= i < self.conformance_order().len() && self.conformance_order()[i] == k;
                    assert(e[i].0 == k);
                }
            }
            assert forall|i: int, j: int|
                0 <= i < j < self.conformance_order().len() implies #[trigger] self.conformance_order()[i].0
                    < #[trigger] self.conformance_order()[j].0 by {
                assert(SymbolId::key_lt(e[i].0, e[j].0));
            }
        }
        let r = m.values();
        proof {
            assert forall|i: int| 0 <= i < r@.len() implies *r@[i] == seq_to_map(e)[#[trigger] self.conformance_order()[i]] by {
                assert(self.conformance_order()[i] == e[i].0);
            }
        }
        r
    }
}

impl TypedProgram {
    /// Records what the checker knows of a name use, replacing what it
    /// knew.
    pub fn insert_typed_reference(&mut self, reference: TypedReference)
        ensures
            final(self).facts() == (FactsView {
                references: old(self).facts().references.insert(reference.reference_id, reference),
                ..old(self).facts()
            }),
            final(self).ownership() == old(self).ownership(),
            final(self).symbol_facts() == old(self).symbol_facts(),
    {
        let ghost s0 = *old(self);
        self.references.insert(reference.reference_id, reference);
        proof {
            s0.lemma_state_fields();
            self.lemma_state_fields();
            assert(self.facts() =~= (FactsView {
                references: s0.facts().references.insert(reference.reference_id, reference),
                ..s0.facts()
            }));
        }
    }

    /// What the checker knows of the name use `reference_id`.
    pub fn typed_reference(&self, reference_id: ReferenceId) -> (r: Option<&TypedReference>)
        ensures
            match r {
                Some(x) => self.facts().references.contains_key(reference_id) && *x
                    == self.facts().references[reference_id],
                None => !self.facts().references.contains_key(reference_id),
            },
    {
        proof {
            self.lemma_state_fields();
        }
        self.references.get(&reference_id)
    }

    /// The name uses the checker knows, in increasing order.
    pub closed spec fn reference_order(&self) -> Seq<ReferenceId> {
        self.references.entries().map_values(|e: (ReferenceId, TypedReference)| e.0)
    }

    /// What the checker knows of every name use, in increasing order.
    pub fn all_typed_references(&self) -> (r: Vec<&TypedReference>)
        ensures
            forall|i: int, j: int|
                0 <= i < j < self.reference_order().len() ==> #[trigger] self.reference_order()[i].0
                    < #[trigger] self.reference_order()[j].0,
            forall|k: ReferenceId|
                #[trigger] self.facts().references.contains_key(k) <==> self.reference_order().contains(k),
            r@.len() == self.reference_order().len(),
            forall|i: int|
                0 <= i < r@.len() ==> *r@[i] == self.facts().references[#[trigger] self.reference_order()[i]],
    {
        let m = &self.references;
        m.is_well_formed();
        let ghost e = m.entries();
        proof {
            self.lemma_state_fields();
            assert forall|i: int| 0 <= i < e.len() implies #[trigger] seq_to_map(e).contains_key(e[i].0)
                && seq_to_map(e)[e[i].0] == e[i].1 by {
                lemma_key_position::<ReferenceId, TypedReference>(e, i);
            }
            assert forall|k: ReferenceId| #[trigger] self.facts().references.contains_key(k)
                <==> self.reference_order().contains(k) by {
                if self.facts().references.contains_key(k) {
                    let i = seq_key_index(e, k);
                    assert(self.reference_order()[i] == k);
                }
                if self.reference_order().contains(k) {
                    let i = choose|i: int| 0 <= i < self.reference_order().len() && self.reference_order()[i] == k;
                    assert(e[i].0 == k);
                }
            }
            assert forall|i: int, j: int|
                0 <= i < j < self.reference_order().len() implies #[trigger] self.reference_order()[i].0
                    < #[trigger] self.reference_order()[j].0 by {
                assert(ReferenceId::key_lt(e[i].0, e[j].0));
            }
        }
        let r = m.values();
        proof {
            assert forall|i: int| 0 <= i < r@.len() implies *r@[i] == seq_to_map(e)[#[trigger] self.reference_order()[i]] by {
                assert(self.reference_order()[i] == e[i].0);
                assert(seq_to_map(e).contains_key(e[i].0));
                assert(*r@[i] == e[i].1);
            }
        }
        r
    }

    /// Replaces what the checker knows of the name use `reference_id`,
    /// when it knows it, and says whether it did.
    fn update_reference(&mut self, reference_id: ReferenceId, updated: TypedReference) -> (r: bool)
        ensures
            r == old(self).facts().references.contains_key(reference_id),
            final(self).facts() == if r {
                FactsView {
                    references: old(self).facts().references.insert(reference_id, updated),
                    ..old(self).facts()
                }
            } else {
                old(self).facts()
            },
            final(self).ownership() == old(self).ownership(),
            final(self).symbol_facts() == old(self).symbol_facts(),
    {
        let ghost s0 = *old(self);
        proof {
            s0.lemma_state_fields();
        }
        if !self.references.contains_key(&reference_id) {
            return false;
        }
        self.references.insert(reference_id, updated);
        proof {
            self.lemma_state_fields();
            assert(self.facts() =~= (FactsView {
                references: s0.facts().references.insert(reference_id, updated),
                ..s0.facts()
            }));
        }
        true
    }

    /// Records `type_id` as the type the name use `reference_id` resolved
    /// to, when the checker knows that use, and says whether it did.
    pub fn set_reference_type(&mut self, reference_id: ReferenceId, type_id: CheckedTypeId) -> (r: bool)
        ensures
            r == old(self).facts().references.contains_key(reference_id),
            final(self).facts() == if r {
                FactsView {
                    references: old(self).facts().references.insert(
                        reference_id,
                        TypedReference {
                            resolved_type: Some(type_id),
                            ..old(self).facts().references[reference_id]
                        },
                    ),
                    ..old(self).facts()
                }
            } else {
                old(self).facts()
            },
            final(self).ownership() == old(self).ownership(),
            final(self).symbol_facts() == old(self).symbol_facts(),
    {
        match self.typed_reference(reference_id) {
            Some(known) => {
                let updated = TypedReference { resolved_type: Some(type_id), ..*known };
                self.update_reference(reference_id, updated)
            },
            None => false,
        }
    }

    /// Records that the call at name use `reference_id` may propagate the
    /// recoverable error `effect`; an unknown use is an internal error.
    pub fn record_reference_recoverable_effect(
        &mut self,
        reference_id: ReferenceId,
        effect: RecoverableCallEffect,
    ) -> (r: Result<(), TypecheckError>)
        ensures
            old(self).facts().references.contains_key(reference_id) ==> r is Ok
                && final(self).facts() == (FactsView {
                references: old(self).facts().references.insert(
                    reference_id,
                    TypedReference {
                        recoverable_effect: Some(effect),
                        ..old(self).facts().references[reference_id]
                    },
                ),
                ..old(self).facts()
            }),
            !old(self).facts().references.contains_key(reference_id) ==> (r matches Err(e)
                && e@ == (TypecheckErrorView {
                kind: TypecheckErrorKind::Internal,
                message: "typed reference disappeared while recording a recoverable call effect"@,
                origin: None,
                related: seq![],
            })) && final(self).facts() == old(self).facts(),
            final(self).ownership() == old(self).ownership(),
            final(self).symbol_facts() == old(self).symbol_facts(),
    {
        match self.typed_reference(reference_id) {
            Some(known) => {
                let updated = TypedReference { recoverable_effect: Some(effect), ..*known };
                self.update_reference(reference_id, updated);
                Ok(())
            },
            None => Err(
                TypecheckError::new(
                    TypecheckErrorKind::Internal,
                    "typed reference disappeared while recording a recoverable call effect",
                ),
            ),
        }
    }
}

/// The source units among `units` of kind `kind`, in order.
pub open spec fn units_of_kind(units: Seq<TypedSourceUnitView>, kind: ParsedSourceUnitKind) -> Seq<
    TypedSourceUnitView,
>
    decreases units.len(),
{
    if units.len() == 0 {
        seq![]
    } else {
        let earlier = units_of_kind(units.drop_last(), kind);
        if units.last().kind == kind {
            earlier.push(units.last())
        } else {
            earlier
        }
    }
}

impl TypedProgram {
    /// Adds a source file of the package after those already recorded.
    pub fn record_source_unit(&mut self, unit: TypedSourceUnit)
        ensures
            final(self).facts() == (FactsView {
                source_units: old(self).facts().source_units.push(unit@),
                ..old(self).facts()
            }),
            final(self).ownership() == old(self).ownership(),
            final(self).symbol_facts() == old(self).symbol_facts(),
    {
        let ghost s0 = *old(self);
        let ghost u = unit@;
        self.source_units.push(unit);
        proof {
            s0.lemma_state_fields();
            self.lemma_state_fields();
            assert(units_view(self.source_units@) =~= units_view(s0.source_units@).push(u));
            assert(self.facts() =~= (FactsView {
                source_units: s0.facts().source_units.push(u),
                ..s0.facts()
            }));
        }
    }

    /// The source files of the package, in order.
    pub fn source_units(&self) -> (r: &[TypedSourceUnit])
        ensures
            units_view(r@) == self.facts().source_units,
    {
        proof {
            self.lemma_state_fields();
        }
        self.source_units.as_slice()
    }

    /// The source files of kind `kind`, in order.
    fn source_units_of_kind(&self, kind: ParsedSourceUnitKind) -> (r: Vec<&TypedSourceUnit>)
        ensures
            r@.map_values(|u: &TypedSourceUnit| u@) == units_of_kind(self.facts().source_units, kind),
    {
        let ghost all = self.facts().source_units;
        proof {
            self.lemma_state_fields();
        }
        let mut out: Vec<&TypedSourceUnit> = Vec::new();
        let mut i: usize = 0;
        proof {
            assert(all.take(0) =~= Seq::<TypedSourceUnitView>::empty());
            assert(out@.map_values(|u: &TypedSourceUnit| u@) =~= Seq::<TypedSourceUnitView>::empty());
        }
        while i < self.source_units.len()
            invariant
                all == units_view(self.source_units@),
                i <= all.len(),
                out@.map_values(|u: &TypedSourceUnit| u@) == units_of_kind(all.take(i as int), kind),
            decreases all.len() - i,
        {
            let unit = &self.source_units[i];
            let ghost before = out@;
            proof {
                assert(all.take(i + 1).drop_last() =~= all.take(i as int));
                assert(all.take(i + 1).last() == unit@);
            }
            if unit.kind == kind {
                out.push(unit);
                proof {
                    assert(out@.map_values(|u: &TypedSourceUnit| u@) =~= before.map_values(
                        |u: &TypedSourceUnit| u@,
                    ).push(unit@));
                }
            }
            i = i + 1;
        }
        proof {
            assert(all.take(i as int) =~= all);
        }
        out
    }

    /// The ordinary source files, in order.
    pub fn ordinary_source_units(&self) -> (r: Vec<&TypedSourceUnit>)
        ensures
            r@.map_values(|u: &TypedSourceUnit| u@) == units_of_kind(
                self.facts().source_units,
                ParsedSourceUnitKind::Ordinary,
            ),
    {
        self.source_units_of_kind(ParsedSourceUnitKind::Ordinary)
    }

    /// The build files, in order.
    pub fn build_source_units(&self) -> (r: Vec<&TypedSourceUnit>)
        ensures
            r@.map_values(|u: &TypedSourceUnit| u@) == units_of_kind(
                self.facts().source_units,
                ParsedSourceUnitKind::Build,
            ),
    {
        self.source_units_of_kind(ParsedSourceUnitKind::Build)
    }
}

/// The files of one kind are exactly the files of that kind, in order: a
/// file is among them just when it is a file of the package of that kind,
/// and every file is among the build files or the ordinary files, not
/// both.
pub proof fn law_files_split_by_kind(units: Seq<TypedSourceUnitView>, kind: ParsedSourceUnitKind)
    ensures
        forall|u: TypedSourceUnitView|
            #[trigger] units_of_kind(units, kind).contains(u) <==> units.contains(u) && u.kind == kind,
        units_of_kind(units, ParsedSourceUnitKind::Build).len() + units_of_kind(
            units,
            ParsedSourceUnitKind::Ordinary,
        ).len() == units.len(),
    decreases units.len(),
{
    if units.len() > 0 {
        let rest = units.drop_last();
        law_files_split_by_kind(rest, kind);
        assert forall|u: TypedSourceUnitView| #[trigger] units_of_kind(units, kind).contains(u) <==> units.contains(u)
            && u.kind == kind by {
            assert(units =~= rest.push(units.last()));
            if units.contains(u) && u.kind == kind {
                let i = choose|i: int| 0 <= i < units.len() && units[i] == u;
                if i < rest.len() {
                    assert(rest[i] == u);
                    assert(rest.contains(u));
                    let earlier = units_of_kind(rest, kind);
                    assert(earlier.contains(u));
                    let j = choose|j: int| 0 <= j < earlier.len() && earlier[j] == u;
                    if units.last().kind == kind {
                        assert(earlier.push(units.last())[j] == u);
                    }
                } else {
                    let earlier = units_of_kind(rest, kind);
                    assert(earlier.push(units.last())[earlier.len() as int] == u);
                }
            }
            if units_of_kind(units, kind).contains(u) {
                let earlier = units_of_kind(rest, kind);
                let j = choose|j: int| 0 <= j < units_of_kind(units, kind).len() && units_of_kind(units, kind)[j] == u;
                if units.last().kind == kind && j == earlier.len() {
                    assert(units[units.len() - 1] == u);
                } else {
                    assert(earlier[j] == u);
                    assert(earlier.contains(u));
                    assert(rest.contains(u));
                    let i = choose|i: int| 0 <= i < rest.len() && rest[i] == u;
                    assert(units[i] == u);
                }
            }
        }
    }
}

} // verus!
