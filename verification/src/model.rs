//! The typed program: the type table, what the checker records per symbol,
//! and the flow-sensitive ownership, borrow and mutex-guard state.
use crate::config::TypecheckCapabilityModel;
use crate::ids::{ScopeId, SourceUnitId, SymbolId, SyntaxNodeId, SyntaxOrigin, SyntaxOriginView};
use crate::sorted_map::{Duplicate, SortedMap};
use crate::types::{BuiltinType, CheckedType, CheckedTypeId, CheckedTypeView, GenericConstraint, TypeTable};
use crate::widths::{CharEncoding, FloatWidth, IntWidth};
use vstd::prelude::*;

verus! {

/// The error type a `/ ErrorType` routine call may propagate.
#[derive(Clone, Copy, Debug, PartialEq, Eq, Structural)]
pub struct RecoverableCallEffect {
    pub error_type: CheckedTypeId,
}

/// A namespace a package exports, with the suffix it is mounted under.
#[derive(Debug, Clone, PartialEq, Eq)]
pub struct TypedExportMount {
    pub source_namespace: String,
    pub mounted_namespace_suffix: Option<String>,
}

/// A live loan: `binding` borrows `owner` inside `scope`.
#[derive(Debug, Clone, PartialEq, Eq)]
pub struct ActiveBorrow {
    pub owner: SymbolId,
    pub binding: SymbolId,
    pub scope: ScopeId,
    pub mutable: bool,
    pub origin: SyntaxOrigin,
}

/// The value of an `ActiveBorrow`.
pub struct ActiveBorrowView {
    pub owner: SymbolId,
    pub binding: SymbolId,
    pub scope: ScopeId,
    pub mutable: bool,
    pub origin: SyntaxOriginView,
}

impl DeepView for ActiveBorrow {
    type V = ActiveBorrowView;

    open spec fn deep_view(&self) -> ActiveBorrowView {
        ActiveBorrowView {
            owner: self.owner,
            binding: self.binding,
            scope: self.scope,
            mutable: self.mutable,
            origin: self.origin@,
        }
    }
}

impl Duplicate for ActiveBorrow {
    fn duplicate(&self) -> (r: ActiveBorrow) {
        ActiveBorrow {
            owner: self.owner,
            binding: self.binding,
            scope: self.scope,
            mutable: self.mutable,
            origin: self.origin.copy(),
        }
    }
}

/// A held mutex lock. `bound` marks a lock bound to a lifetime-scoped guard
/// value, which may not cross processor boundaries.
#[derive(Debug, Clone, PartialEq, Eq)]
pub struct ActiveMutexGuard {
    pub scope: ScopeId,
    pub origin: SyntaxOrigin,
    pub bound: bool,
}

/// The value of an `ActiveMutexGuard`.
pub struct ActiveMutexGuardView {
    pub scope: ScopeId,
    pub origin: SyntaxOriginView,
    pub bound: bool,
}

impl DeepView for ActiveMutexGuard {
    type V = ActiveMutexGuardView;

    open spec fn deep_view(&self) -> ActiveMutexGuardView {
        ActiveMutexGuardView { scope: self.scope, origin: self.origin@, bound: self.bound }
    }
}

impl Duplicate for ActiveMutexGuard {
    fn duplicate(&self) -> (r: ActiveMutexGuard) {
        ActiveMutexGuard { scope: self.scope, origin: self.origin.copy(), bound: self.bound }
    }
}

/// A read of a binding from a deferred block, pinning the binding to the
/// scope exit where the block runs.
#[derive(Debug, Clone, PartialEq, Eq)]
pub struct DeferredBindingUse {
    pub scope: ScopeId,
    pub origin: SyntaxOrigin,
}

/// The value of a `DeferredBindingUse`.
pub struct DeferredBindingUseView {
    pub scope: ScopeId,
    pub origin: SyntaxOriginView,
}

impl DeepView for DeferredBindingUse {
    type V = DeferredBindingUseView;

    open spec fn deep_view(&self) -> DeferredBindingUseView {
        DeferredBindingUseView { scope: self.scope, origin: self.origin@ }
    }
}

impl Duplicate for DeferredBindingUse {
    fn duplicate(&self) -> (r: DeferredBindingUse) {
        DeferredBindingUse { scope: self.scope, origin: self.origin.copy() }
    }
}

/// A shared loan on an outer binding held by a spawned scoped task or a
/// local closure value until the scope that registered it ends. The owner
/// stays readable but cannot be mutated or moved meanwhile.
#[derive(Debug, Clone, PartialEq, Eq)]
pub struct TaskBorrow {
    pub scope: ScopeId,
    pub origin: SyntaxOrigin,
    pub kind: TaskBorrowKind,
}

/// The value of a `TaskBorrow`.
pub struct TaskBorrowView {
    pub scope: ScopeId,
    pub origin: SyntaxOriginView,
    pub kind: TaskBorrowKind,
}

impl DeepView for TaskBorrow {
    type V = TaskBorrowView;

    open spec fn deep_view(&self) -> TaskBorrowView {
        TaskBorrowView { scope: self.scope, origin: self.origin@, kind: self.kind }
    }
}

impl Duplicate for TaskBorrow {
    fn duplicate(&self) -> (r: TaskBorrow) {
        TaskBorrow { scope: self.scope, origin: self.origin.copy(), kind: self.kind }
    }
}

/// Who holds a shared loan on an outer binding.
#[derive(Clone, Copy, Debug, PartialEq, Eq, Structural)]
pub enum TaskBorrowKind {
    SpawnTask,
    LocalClosure,
}

/// How a task-borrow holder is named in diagnostics.
pub open spec fn task_borrow_kind_text(kind: TaskBorrowKind) -> Seq<char> {
    match kind {
        TaskBorrowKind::SpawnTask => "a spawned task"@,
        TaskBorrowKind::LocalClosure => "a local closure"@,
    }
}

impl TaskBorrowKind {
    /// The holder as named in diagnostics.
    pub fn describe(self) -> (r: &'static str)
        ensures
            r@ == task_borrow_kind_text(self),
    {
        proof {
            reveal_strlit("a spawned task");
            reveal_strlit("a local closure");
        }
        match self {
            TaskBorrowKind::SpawnTask => "a spawned task",
            TaskBorrowKind::LocalClosure => "a local closure",
        }
    }
}

/// A move of a binding that a deferred block still reads.
#[derive(Debug, Clone, PartialEq, Eq)]
pub struct DeferredTransferConflict {
    pub symbol: SymbolId,
    pub transfer_origin: SyntaxOrigin,
    pub deferred_origin: SyntaxOrigin,
}

/// The value of a `DeferredTransferConflict`.
pub struct DeferredTransferConflictView {
    pub symbol: SymbolId,
    pub transfer_origin: SyntaxOriginView,
    pub deferred_origin: SyntaxOriginView,
}

impl DeepView for DeferredTransferConflict {
    type V = DeferredTransferConflictView;

    open spec fn deep_view(&self) -> DeferredTransferConflictView {
        DeferredTransferConflictView {
            symbol: self.symbol,
            transfer_origin: self.transfer_origin@,
            deferred_origin: self.deferred_origin@,
        }
    }
}

/// How an eventual handle was consumed.
#[derive(Clone, Copy, Debug, PartialEq, Eq, Structural)]
pub enum EventualMoveKind {
    Transfer,
    Await,
}

impl DeepView for EventualMoveKind {
    type V = EventualMoveKind;

    open spec fn deep_view(&self) -> EventualMoveKind {
        *self
    }
}

impl Duplicate for EventualMoveKind {
    fn duplicate(&self) -> (r: EventualMoveKind) {
        *self
    }
}

/// A recoverable eventual that must be awaited and handled before its owner
/// scope ends.
#[derive(Debug, Clone, PartialEq, Eq)]
pub struct RecoverableEventualObligation {
    pub owner_scope: ScopeId,
    pub activation_scope: ScopeId,
    pub origin: Option<SyntaxOrigin>,
}

/// The value of a `RecoverableEventualObligation`.
pub struct RecoverableEventualObligationView {
    pub owner_scope: ScopeId,
    pub activation_scope: ScopeId,
    pub origin: Option<SyntaxOriginView>,
}

impl DeepView for RecoverableEventualObligation {
    type V = RecoverableEventualObligationView;

    open spec fn deep_view(&self) -> RecoverableEventualObligationView {
        RecoverableEventualObligationView {
            owner_scope: self.owner_scope,
            activation_scope: self.activation_scope,
            origin: match self.origin {
                Some(o) => Some(o@),
                None => None,
            },
        }
    }
}

impl Duplicate for RecoverableEventualObligation {
    fn duplicate(&self) -> (r: RecoverableEventualObligation) {
        RecoverableEventualObligation {
            owner_scope: self.owner_scope,
            activation_scope: self.activation_scope,
            origin: match &self.origin {
                Some(o) => Some(o.copy()),
                None => None,
            },
        }
    }
}

/// Whether an ownership event moved or reinitialized a binding.
#[derive(Clone, Copy, Debug, PartialEq, Eq, Structural)]
pub enum OwnershipEventKind {
    Move,
    Reinitialize,
}

/// A move or reinitialization of a binding at a source position.
#[derive(Debug, Clone, PartialEq, Eq)]
pub struct OwnershipEvent {
    pub kind: OwnershipEventKind,
    pub origin: SyntaxOrigin,
}

/// The value of an `OwnershipEvent`.
pub struct OwnershipEventView {
    pub kind: OwnershipEventKind,
    pub origin: SyntaxOriginView,
}

impl DeepView for OwnershipEvent {
    type V = OwnershipEventView;

    open spec fn deep_view(&self) -> OwnershipEventView {
        OwnershipEventView { kind: self.kind, origin: self.origin@ }
    }
}

/// The snapshot of flow-sensitive ownership state taken at a branch point.
#[derive(Debug)]
pub struct OwnershipFlowState {
    pub(crate) moved_bindings: SortedMap<SymbolId, SyntaxOrigin>,
    pub(crate) moved_fields: SortedMap<SymbolId, SortedMap<String, SyntaxOrigin>>,
    pub(crate) eventual_moves: SortedMap<SymbolId, EventualMoveKind>,
    pub(crate) recoverable_eventual_obligations: SortedMap<SymbolId, RecoverableEventualObligation>,
    pub(crate) active_borrows: SortedMap<SymbolId, Vec<ActiveBorrow>>,
    pub(crate) borrow_bindings: SortedMap<SymbolId, ActiveBorrow>,
    pub(crate) returned_borrows: SortedMap<SymbolId, SyntaxOrigin>,
}

/// What the checker records for a syntax node: its inferred type, the
/// recoverable error it may propagate, and the intrinsic it calls.
#[derive(Clone, Copy, Debug, PartialEq, Eq, Structural)]
pub struct TypedNode {
    pub syntax_id: SyntaxNodeId,
    pub source_unit_id: SourceUnitId,
    pub inferred_type: Option<CheckedTypeId>,
    pub recoverable_effect: Option<RecoverableCallEffect>,
    pub intrinsic_id: Option<crate::ids::IntrinsicId>,
}

/// What the checker records for a name use: its kind and file, the type it
/// resolved to, and the recoverable error it may propagate.
#[derive(Clone, Copy, Debug, PartialEq, Eq, Structural)]
pub struct TypedReference {
    pub reference_id: crate::ids::ReferenceId,
    pub kind: crate::resolution::ReferenceKind,
    pub source_unit_id: SourceUnitId,
    pub resolved_type: Option<CheckedTypeId>,
    pub recoverable_effect: Option<RecoverableCallEffect>,
}

/// A standard a type claims to conform to, with the type arguments given
/// at the conformance header.
#[derive(Debug, Clone, PartialEq, Eq)]
pub struct TypedConformanceClaim {
    pub standard_symbol_id: SymbolId,
    pub type_args: Vec<CheckedTypeId>,
}

/// The standards a type declaration claims to conform to.
#[derive(Debug, Clone, PartialEq, Eq)]
pub struct TypedConformance {
    pub type_symbol_id: SymbolId,
    pub standard_symbol_ids: Vec<SymbolId>,
    /// The claims with their type arguments, parallel to
    /// `standard_symbol_ids`.
    pub claims: Vec<TypedConformanceClaim>,
}

/// The value of a `TypedConformance`: its claims as standard and type
/// arguments.
pub struct TypedConformanceView {
    pub type_symbol_id: SymbolId,
    pub standard_symbol_ids: Seq<SymbolId>,
    pub claims: Seq<(SymbolId, Seq<CheckedTypeId>)>,
}

impl View for TypedConformance {
    type V = TypedConformanceView;

    open spec fn view(&self) -> TypedConformanceView {
        TypedConformanceView {
            type_symbol_id: self.type_symbol_id,
            standard_symbol_ids: self.standard_symbol_ids@,
            claims: self.claims@.map_values(
                |c: TypedConformanceClaim| (c.standard_symbol_id, c.type_args@),
            ),
        }
    }
}

/// One field of a record type in declaration order, with the syntax node of
/// its default initializer if it has one.
#[derive(Debug, Clone, PartialEq, Eq)]
pub struct RecordFieldLayout {
    pub name: String,
    pub type_id: CheckedTypeId,
    pub default: Option<SyntaxNodeId>,
}

/// The value of a `RecordFieldLayout`.
pub struct RecordFieldLayoutView {
    pub name: Seq<char>,
    pub type_id: CheckedTypeId,
    pub default: Option<SyntaxNodeId>,
}

impl View for RecordFieldLayout {
    type V = RecordFieldLayoutView;

    open spec fn view(&self) -> RecordFieldLayoutView {
        RecordFieldLayoutView { name: self.name@, type_id: self.type_id, default: self.default }
    }
}

/// The views of a record layout's fields.
pub open spec fn layout_view(fields: Seq<RecordFieldLayout>) -> Seq<RecordFieldLayoutView> {
    fields.map_values(|f: RecordFieldLayout| f@)
}

/// The kinds of source files a package has.
#[derive(Clone, Copy, Debug, PartialEq, Eq, Structural)]
pub enum ParsedSourceUnitKind {
    Ordinary,
    Build,
}

/// A source file of the checked package: where it lives, its package and
/// namespace, its kind, its scope and its top-level syntax nodes.
#[derive(Debug, Clone, PartialEq, Eq)]
pub struct TypedSourceUnit {
    pub source_unit_id: SourceUnitId,
    pub path: String,
    pub package: String,
    pub namespace: String,
    pub kind: ParsedSourceUnitKind,
    pub scope_id: ScopeId,
    pub top_level_nodes: Vec<SyntaxNodeId>,
}

/// The value of a `TypedSourceUnit`.
pub struct TypedSourceUnitView {
    pub source_unit_id: SourceUnitId,
    pub path: Seq<char>,
    pub package: Seq<char>,
    pub namespace: Seq<char>,
    pub kind: ParsedSourceUnitKind,
    pub scope_id: ScopeId,
    pub top_level_nodes: Seq<SyntaxNodeId>,
}

impl View for TypedSourceUnit {
    type V = TypedSourceUnitView;

    open spec fn view(&self) -> TypedSourceUnitView {
        TypedSourceUnitView {
            source_unit_id: self.source_unit_id,
            path: self.path@,
            package: self.package@,
            namespace: self.namespace@,
            kind: self.kind,
            scope_id: self.scope_id,
            top_level_nodes: self.top_level_nodes@,
        }
    }
}

/// The views of a list of source units.
pub open spec fn units_view(units: Seq<TypedSourceUnit>) -> Seq<TypedSourceUnitView> {
    units.map_values(|u: TypedSourceUnit| u@)
}

/// What the checker records for a resolved symbol.
#[derive(Debug, Clone, PartialEq, Eq)]
pub struct TypedSymbol {
    pub symbol_id: SymbolId,
    pub kind: crate::resolution::SymbolKind,
    pub scope_id: ScopeId,
    pub source_unit_id: SourceUnitId,
    pub declared_type: Option<CheckedTypeId>,
    pub receiver_type: Option<CheckedTypeId>,
    /// The default expression of each parameter, by syntax node.
    pub param_defaults: Vec<Option<SyntaxNodeId>>,
    pub generic_params: Vec<SymbolId>,
    pub generic_constraints: SortedMap<SymbolId, Vec<GenericConstraint>>,
    /// Whether the binding was declared mutable.
    pub is_mutable: bool,
    pub is_mutex: bool,
    /// A lifetime-scoped mutex guard binding.
    pub is_mutex_guard: bool,
    /// A channel capture that exposes only the sender endpoint.
    pub is_channel_sender_capture: bool,
    /// Parameter positions that receive through `c[rx]`.
    pub channel_receiver_params: SortedMap<usize, ()>,
}

/// A typed program: its type table, symbol facts, and the ownership state
/// the checker keeps while walking routine bodies.
#[derive(Debug, PartialEq, Eq)]
pub struct TypedProgram {
    pub(crate) capability_model: TypecheckCapabilityModel,
    pub(crate) type_table: TypeTable,
    pub(crate) source_units: Vec<TypedSourceUnit>,
    pub(crate) symbols: SortedMap<SymbolId, TypedSymbol>,
    pub(crate) apparent_type_overrides: SortedMap<CheckedTypeId, CheckedTypeId>,
    pub(crate) method_call_targets: SortedMap<SyntaxNodeId, SymbolId>,
    pub(crate) constraint_call_sites: SortedMap<SyntaxNodeId, ()>,
    pub(crate) moved_bindings: SortedMap<SymbolId, SyntaxOrigin>,
    pub(crate) moved_fields: SortedMap<SymbolId, SortedMap<String, SyntaxOrigin>>,
    pub(crate) eventual_moves: SortedMap<SymbolId, EventualMoveKind>,
    pub(crate) recoverable_eventual_obligations: SortedMap<SymbolId, RecoverableEventualObligation>,
    pub(crate) ownership_history: SortedMap<SymbolId, Vec<OwnershipEvent>>,
    pub(crate) active_borrows: SortedMap<SymbolId, Vec<ActiveBorrow>>,
    pub(crate) borrow_bindings: SortedMap<SymbolId, ActiveBorrow>,
    pub(crate) borrow_history: SortedMap<SymbolId, ActiveBorrow>,
    pub(crate) owner_borrow_history: SortedMap<SymbolId, ActiveBorrow>,
    pub(crate) returned_borrows: SortedMap<SymbolId, SyntaxOrigin>,
    pub(crate) active_mutex_guards: SortedMap<SymbolId, ActiveMutexGuard>,
    pub(crate) deferred_binding_uses: SortedMap<SymbolId, Vec<DeferredBindingUse>>,
    pub(crate) task_borrowed_bindings: SortedMap<SymbolId, Vec<TaskBorrow>>,
    pub(crate) bor_env_closures: SortedMap<SymbolId, ()>,
    pub(crate) deferred_transfer_conflict: Option<DeferredTransferConflict>,
    /// Compiler-owned capability standards claimed by each type declaration.
    pub(crate) capability_claims: SortedMap<SymbolId, SortedMap<String, ()>>,
    /// Compiler-owned capability bounds on each generic parameter.
    pub(crate) generic_capability_constraints: SortedMap<SymbolId, SortedMap<String, ()>>,
    /// Type ids whose declaration claims custom finalization (`fin`).
    pub(crate) fin_types: SortedMap<CheckedTypeId, ()>,
    pub(crate) nodes: SortedMap<SyntaxNodeId, TypedNode>,
    pub(crate) references: SortedMap<crate::ids::ReferenceId, TypedReference>,
    pub(crate) conformances: SortedMap<SymbolId, TypedConformance>,
    /// Record fields in declaration order, with their defaults.
    pub(crate) record_layouts: SortedMap<CheckedTypeId, Vec<RecordFieldLayout>>,
    /// The fully instantiated signature at each direct call site.
    pub(crate) call_signatures: SortedMap<SyntaxNodeId, crate::types::RoutineType>,
    /// Generic instantiations whose shape is being computed.
    pub(crate) active_instantiations: SortedMap<CheckedTypeId, ()>,
    /// Where the builtin scalar types sit in the type table.
    pub(crate) builtins: BuiltinTypeIds,
    /// The name resolution the program was made from.
    pub(crate) resolved: crate::resolution::Resolution,
}

/// The ids of the builtin scalar types in a program's type table.
#[derive(Clone, Copy, Debug, PartialEq, Eq, Structural)]
pub struct BuiltinTypeIds {
    pub int: CheckedTypeId,
    pub float: CheckedTypeId,
    pub bool_: CheckedTypeId,
    pub char_: CheckedTypeId,
    pub str_: CheckedTypeId,
    pub never: CheckedTypeId,
}

/// Whether `ids` name, in `types`, the builtin scalar types: `int`, `flt`
/// and `chr` at their default widths and encoding, `bol`, `str` and `never`.
pub open spec fn builtins_installed(types: Seq<CheckedTypeView>, ids: BuiltinTypeIds) -> bool {
    &&& ids.int.0 < types.len() && types[ids.int.0 as int] == CheckedTypeView::Builtin(
        BuiltinType::Int(IntWidth::DEFAULT),
    )
    &&& ids.float.0 < types.len() && types[ids.float.0 as int] == CheckedTypeView::Builtin(
        BuiltinType::Float(FloatWidth::DEFAULT),
    )
    &&& ids.bool_.0 < types.len() && types[ids.bool_.0 as int] == CheckedTypeView::Builtin(
        BuiltinType::Bool,
    )
    &&& ids.char_.0 < types.len() && types[ids.char_.0 as int] == CheckedTypeView::Builtin(
        BuiltinType::Char(CharEncoding::DEFAULT),
    )
    &&& ids.str_.0 < types.len() && types[ids.str_.0 as int] == CheckedTypeView::Builtin(
        BuiltinType::Str,
    )
    &&& ids.never.0 < types.len() && types[ids.never.0 as int] == CheckedTypeView::Builtin(
        BuiltinType::Never,
    )
}

/// A resolved symbol as the checker first records it: its kind, scope,
/// source file and mutability, with nothing typed yet.
pub open spec fn symbol_start(t: TypedSymbol, id: SymbolId, s: crate::resolution::ResolvedSymbol) -> bool {
    &&& t.symbol_id == id
    &&& t.kind == s.kind
    &&& t.scope_id == s.scope
    &&& t.source_unit_id == s.source_unit
    &&& t.declared_type is None
    &&& t.receiver_type is None
    &&& t.param_defaults@.len() == 0
    &&& t.generic_params@.len() == 0
    &&& t.generic_constraints.as_map() == Map::<SymbolId, Vec<GenericConstraint>>::empty()
    &&& t.is_mutable == s.is_mutable
    &&& !t.is_mutex
    &&& !t.is_mutex_guard
    &&& !t.is_channel_sender_capture
    &&& t.channel_receiver_params.as_map() == Map::<usize, ()>::empty()
}

/// A resolved name use as the checker first records it, with no type yet.
pub open spec fn reference_start(
    id: crate::ids::ReferenceId,
    r: crate::resolution::ResolvedReference,
) -> TypedReference {
    TypedReference {
        reference_id: id,
        kind: r.kind,
        source_unit_id: r.source_unit,
        resolved_type: None,
        recoverable_effect: None,
    }
}

/// The name uses of `resolved`, each as the checker first records it.
pub open spec fn references_start(resolved: crate::resolution::Resolution) -> Map<
    crate::ids::ReferenceId,
    TypedReference,
> {
    Map::new(
        |k: crate::ids::ReferenceId| resolved.references.as_map().contains_key(k),
        |k: crate::ids::ReferenceId| reference_start(k, resolved.references.as_map()[k]),
    )
}

impl TypedProgram {
    /// A typed program checked under `capability_model` holding only the
    /// builtin scalar types.
    pub fn with_model(capability_model: TypecheckCapabilityModel) -> (r: Self)
        ensures
            r.facts() == crate::ownership::fresh_facts(capability_model, r.resolved_program()),
            crate::resolution::empty_resolution(r.resolved_program()),
            r.ownership() == crate::ownership::no_ownership(),
            r.symbol_facts() == Map::<SymbolId, TypedSymbol>::empty(),
            builtins_installed(r.facts().types, r.builtin_ids()),
    {
        let mut r = Self::empty(capability_model);
        let t0 = CheckedType::Builtin(BuiltinType::Int(IntWidth::DEFAULT));
        let t1 = CheckedType::Builtin(BuiltinType::Float(FloatWidth::DEFAULT));
        let t2 = CheckedType::Builtin(BuiltinType::Bool);
        let t3 = CheckedType::Builtin(BuiltinType::Char(CharEncoding::DEFAULT));
        let t4 = CheckedType::Builtin(BuiltinType::Str);
        let t5 = CheckedType::Builtin(BuiltinType::Never);
        let ghost v = seq![t0@, t1@, t2@, t3@, t4@, t5@];
        let int_id = r.intern_type(t0);
        proof {
            assert(r.facts().types =~= v.take(1));
        }
        let float = r.intern_type(t1);
        proof {
            assert(v.take(1)[0] != t1@);
            assert(r.facts().types =~= v.take(2));
        }
        let bool_ = r.intern_type(t2);
        proof {
            assert(forall|i: int| 0 <= i < 2 ==> v.take(2)[i] != t2@);
            assert(r.facts().types =~= v.take(3));
        }
        let char_ = r.intern_type(t3);
        proof {
            assert(forall|i: int| 0 <= i < 3 ==> v.take(3)[i] != t3@);
            assert(r.facts().types =~= v.take(4));
        }
        let str_ = r.intern_type(t4);
        proof {
            assert(forall|i: int| 0 <= i < 4 ==> v.take(4)[i] != t4@);
            assert(r.facts().types =~= v.take(5));
        }
        let never = r.intern_type(t5);
        proof {
            assert(forall|i: int| 0 <= i < 5 ==> v.take(5)[i] != t5@);
            assert(r.facts().types =~= v);
        }
        r
    }

    /// A typed program made from `resolved` under `capability_model`: the
    /// builtin scalar types are installed, and each resolved symbol and name
    /// use is recorded with nothing typed yet.
    pub fn from_resolution_with_model(
        resolved: crate::resolution::Resolution,
        capability_model: TypecheckCapabilityModel,
    ) -> (r: Self)
        ensures
            r.facts() == (crate::ownership::FactsView {
                references: references_start(resolved),
                ..crate::ownership::fresh_facts(capability_model, resolved)
            }),
            r.ownership() == crate::ownership::no_ownership(),
            r.symbol_facts().dom() == resolved.symbols.as_map().dom(),
            forall|id: SymbolId| #[trigger]
                r.symbol_facts().contains_key(id) ==> symbol_start(
                    r.symbol_facts()[id],
                    id,
                    resolved.symbols.as_map()[id],
                ),
            builtins_installed(r.facts().types, r.builtin_ids()),
            r.resolved_program() == resolved,
    {
        let mut r = Self::with_model(capability_model);
        let mut symbols: SortedMap<SymbolId, TypedSymbol> = SortedMap::new();
        let n = resolved.symbols.len();
        let ghost es = resolved.symbols.entries();
        resolved.symbols.is_well_formed();
        let mut i: usize = 0;
        while i < n
            invariant
                n == es.len(),
                es == resolved.symbols.entries(),
                resolved.symbols.wf(),
                0 <= i <= n,
                symbols.as_map().dom() == crate::sorted_map::seq_to_map(es.take(i as int)).dom(),
                forall|id: SymbolId| #[trigger]
                    symbols.as_map().contains_key(id) ==> symbol_start(
                        symbols.as_map()[id],
                        id,
                        resolved.symbols.as_map()[id],
                    ),
            decreases n - i,
        {
            let id = *resolved.symbols.key_at(i);
            let s = resolved.symbols.value_at(i);
            let t = TypedSymbol {
                symbol_id: id,
                kind: s.kind,
                scope_id: s.scope,
                source_unit_id: s.source_unit,
                declared_type: None,
                receiver_type: None,
                param_defaults: Vec::new(),
                generic_params: Vec::new(),
                generic_constraints: SortedMap::new(),
                is_mutable: s.is_mutable,
                is_mutex: false,
                is_mutex_guard: false,
                is_channel_sender_capture: false,
                channel_receiver_params: SortedMap::new(),
            };
            proof {
                crate::sorted_map::lemma_prefix_map_step::<SymbolId, crate::resolution::ResolvedSymbol>(es, i as int);
                crate::sorted_map::lemma_key_position::<SymbolId, crate::resolution::ResolvedSymbol>(es, i as int);
            }
            symbols.insert(id, t);
            i = i + 1;
        }
        proof {
            crate::sorted_map::lemma_full_prefix(es);
        }
        let mut references: SortedMap<crate::ids::ReferenceId, TypedReference> = SortedMap::new();
        let m = resolved.references.len();
        let ghost rs = resolved.references.entries();
        resolved.references.is_well_formed();
        let mut j: usize = 0;
        while j < m
            invariant
                m == rs.len(),
                rs == resolved.references.entries(),
                resolved.references.wf(),
                0 <= j <= m,
                references.as_map() == crate::sorted_map::seq_to_map(rs.take(j as int)).dom().mk_map(|k: crate::ids::ReferenceId| reference_start(k, resolved.references.as_map()[k])),
            decreases m - j,
        {
            let id = *resolved.references.key_at(j);
            let x = resolved.references.value_at(j);
            let t = TypedReference {
                reference_id: id,
                kind: x.kind,
                source_unit_id: x.source_unit,
                resolved_type: None,
                recoverable_effect: None,
            };
            proof {
                crate::sorted_map::lemma_prefix_map_step::<crate::ids::ReferenceId, crate::resolution::ResolvedReference>(rs, j as int);
                crate::sorted_map::lemma_key_position::<crate::ids::ReferenceId, crate::resolution::ResolvedReference>(rs, j as int);
            }
            references.insert(id, t);
            proof {
                assert(references.as_map() =~= crate::sorted_map::seq_to_map(rs.take(j + 1)).dom().mk_map(|k: crate::ids::ReferenceId| reference_start(k, resolved.references.as_map()[k])));
            }
            j = j + 1;
        }
        proof {
            crate::sorted_map::lemma_full_prefix(rs);
            assert(references.as_map() =~= references_start(resolved));
        }
        let ghost before = r;
        r.symbols = symbols;
        r.references = references;
        r.resolved = resolved;
        proof {
            before.lemma_state_fields();
            r.lemma_state_fields();
            assert(r.facts() =~= (crate::ownership::FactsView {
                references: references_start(resolved),
                ..crate::ownership::fresh_facts(capability_model, resolved)
            }));
        }
        r
    }

    /// A typed program made from `resolved` under the default `Std`
    /// capability model.
    pub fn from_resolution(resolved: crate::resolution::Resolution) -> (r: Self)
        ensures
            r.facts() == (crate::ownership::FactsView {
                references: references_start(resolved),
                ..crate::ownership::fresh_facts(TypecheckCapabilityModel::Std, resolved)
            }),
            r.ownership() == crate::ownership::no_ownership(),
            r.symbol_facts().dom() == resolved.symbols.as_map().dom(),
            forall|id: SymbolId| #[trigger]
                r.symbol_facts().contains_key(id) ==> symbol_start(
                    r.symbol_facts()[id],
                    id,
                    resolved.symbols.as_map()[id],
                ),
            builtins_installed(r.facts().types, r.builtin_ids()),
            r.resolved_program() == resolved,
    {
        Self::from_resolution_with_model(resolved, TypecheckCapabilityModel::Std)
    }

    /// Where the builtin scalar types sit in the type table.
    pub open spec fn builtin_ids(&self) -> BuiltinTypeIds {
        self.facts().builtins
    }

    /// The name resolution the program was made from.
    pub open spec fn resolved_program(&self) -> crate::resolution::Resolution {
        self.facts().resolved
    }

    /// Where the builtin scalar types sit in the type table.
    pub fn builtin_types(&self) -> (r: BuiltinTypeIds)
        ensures
            r == self.builtin_ids(),
    {
        proof {
            self.lemma_state_fields();
        }
        self.builtins
    }

    /// The name resolution the program was made from.
    pub fn resolved(&self) -> (r: &crate::resolution::Resolution)
        ensures
            *r == self.resolved_program(),
    {
        proof {
            self.lemma_state_fields();
        }
        &self.resolved
    }

    /// The name of the package the program was made from.
    pub fn package_name(&self) -> (r: &str)
        ensures
            r@ == self.resolved_program().package@,
    {
        proof {
            self.lemma_state_fields();
        }
        self.resolved.package.as_str()
    }

    /// An empty typed program checked under `capability_model`, before the
    /// builtin scalar types are installed where they will go.
    fn empty(capability_model: TypecheckCapabilityModel) -> (r: Self)
        ensures
            r.facts() == (crate::ownership::FactsView {
                types: Seq::empty(),
                ..crate::ownership::fresh_facts(capability_model, r.resolved_program())
            }),
            crate::resolution::empty_resolution(r.resolved_program()),
            r.ownership() == crate::ownership::no_ownership(),
            r.symbol_facts() == Map::<SymbolId, TypedSymbol>::empty(),
    {
        let r = TypedProgram {
            capability_model,
            type_table: TypeTable::new(),
            source_units: Vec::new(),
            symbols: SortedMap::new(),
            apparent_type_overrides: SortedMap::new(),
            method_call_targets: SortedMap::new(),
            constraint_call_sites: SortedMap::new(),
            moved_bindings: SortedMap::new(),
            moved_fields: SortedMap::new(),
            eventual_moves: SortedMap::new(),
            recoverable_eventual_obligations: SortedMap::new(),
            ownership_history: SortedMap::new(),
            active_borrows: SortedMap::new(),
            borrow_bindings: SortedMap::new(),
            borrow_history: SortedMap::new(),
            owner_borrow_history: SortedMap::new(),
            returned_borrows: SortedMap::new(),
            active_mutex_guards: SortedMap::new(),
            deferred_binding_uses: SortedMap::new(),
            task_borrowed_bindings: SortedMap::new(),
            bor_env_closures: SortedMap::new(),
            deferred_transfer_conflict: None,
            capability_claims: SortedMap::new(),
            generic_capability_constraints: SortedMap::new(),
            fin_types: SortedMap::new(),
            nodes: SortedMap::new(),
            references: SortedMap::new(),
            conformances: SortedMap::new(),
            record_layouts: SortedMap::new(),
            call_signatures: SortedMap::new(),
            active_instantiations: SortedMap::new(),
            builtins: BuiltinTypeIds {
                int: CheckedTypeId(0),
                float: CheckedTypeId(1),
                bool_: CheckedTypeId(2),
                char_: CheckedTypeId(3),
                str_: CheckedTypeId(4),
                never: CheckedTypeId(5),
            },
            resolved: crate::resolution::Resolution::new(),
        };
        proof {
            r.lemma_state_fields();
            assert(r.apparent_type_overrides.deep_view() =~= Map::empty());
            assert(r.capability_claims.deep_view() =~= Map::empty());
            assert(r.generic_capability_constraints.deep_view() =~= Map::empty());
            assert(r.fin_types.deep_view().dom() =~= Set::empty());
            assert(r.method_call_targets.deep_view() =~= Map::empty());
            assert(r.constraint_call_sites.deep_view().dom() =~= Set::empty());
            assert(r.moved_bindings.deep_view() =~= Map::empty());
            assert(r.moved_fields.deep_view() =~= Map::empty());
            assert(r.eventual_moves.deep_view() =~= Map::empty());
            assert(r.recoverable_eventual_obligations.deep_view() =~= Map::empty());
            assert(r.ownership_history.deep_view() =~= Map::empty());
            assert(r.active_borrows.deep_view() =~= Map::empty());
            assert(r.borrow_bindings.deep_view() =~= Map::empty());
            assert(r.borrow_history.deep_view() =~= Map::empty());
            assert(r.owner_borrow_history.deep_view() =~= Map::empty());
            assert(r.returned_borrows.deep_view() =~= Map::empty());
            assert(r.active_mutex_guards.deep_view() =~= Map::empty());
            assert(r.deferred_binding_uses.deep_view() =~= Map::empty());
            assert(r.task_borrowed_bindings.deep_view() =~= Map::empty());
            assert(r.bor_env_closures.deep_view().dom() =~= Set::empty());
            assert(r.capability_claims.deep_view().map_values(|m: Map<Seq<char>, ()>| m.dom())
                =~= Map::empty());
            assert(r.generic_capability_constraints.deep_view().map_values(
                |m: Map<Seq<char>, ()>| m.dom(),
            ) =~= Map::empty());
            assert(r.type_table@ =~= Seq::empty());
            assert(units_view(r.source_units@) =~= Seq::empty());
            assert(r.nodes.as_map() =~= Map::empty());
            assert(r.references.as_map() =~= Map::empty());
            assert(r.conformances.as_map().map_values(|c: TypedConformance| c@) =~= Map::empty());
            assert(r.record_layouts.as_map().map_values(
                |v: Vec<RecordFieldLayout>| layout_view(v@),
            ) =~= Map::empty());
            assert(r.call_signatures.as_map().map_values(|t: crate::types::RoutineType| t@)
                =~= Map::empty());
            assert(r.active_instantiations.as_map().dom() =~= Set::empty());
            assert(r.facts() =~= (crate::ownership::FactsView {
                types: Seq::empty(),
                ..crate::ownership::fresh_facts(capability_model, r.resolved)
            }));
            assert(r.ownership() =~= crate::ownership::no_ownership());
        }
        r
    }

    /// A typed program under the default `Std` capability model holding
    /// only the builtin scalar types.
    pub fn new() -> (r: Self)
        ensures
            r.facts() == crate::ownership::fresh_facts(TypecheckCapabilityModel::Std, r.resolved_program()),
            crate::resolution::empty_resolution(r.resolved_program()),
            r.ownership() == crate::ownership::no_ownership(),
            r.symbol_facts() == Map::<SymbolId, TypedSymbol>::empty(),
            builtins_installed(r.facts().types, r.builtin_ids()),
    {
        Self::with_model(TypecheckCapabilityModel::Std)
    }

    /// The capability model the program is checked under.
    pub fn capability_model(&self) -> (r: TypecheckCapabilityModel)
        ensures
            r == self.facts().capability_model,
    {
        proof {
            self.lemma_state_fields();
        }
        self.capability_model
    }

    /// The program's type table.
    pub fn type_table(&self) -> (r: &TypeTable)
        ensures
            r@ == self.facts().types,
    {
        proof {
            self.lemma_state_fields();
        }
        &self.type_table
    }

    /// Interns `ty` into the program's type table.
    pub fn intern_type(&mut self, ty: crate::types::CheckedType) -> (id: CheckedTypeId)
        ensures
            (final(self).facts().types, id.0 as int) == crate::types::intern_spec(
                old(self).facts().types,
                ty@,
            ),
            final(self).facts() == (crate::ownership::FactsView {
                types: final(self).facts().types,
                ..old(self).facts()
            }),
            final(self).ownership() == old(self).ownership(),
            final(self).symbol_facts() == old(self).symbol_facts(),
    {
        let ghost s0 = *old(self);
        let id = self.type_table.intern(ty);
        proof {
            s0.lemma_state_fields();
            self.lemma_state_fields();
        }
        id
    }
}

} // verus!
