use lib::bindings::{register_borrow_binding, BorrowInitializer};
use lib::errors::TypecheckErrorKind;
use lib::exprs::{ErrorCallMode, TypeContext};
use lib::ids::{ReferenceId, ScopeId, SourceUnitId, SymbolId, SyntaxNodeId, SyntaxOrigin};
use lib::model::{ActiveMutexGuard, EventualMoveKind, TypedProgram, TypedSymbol};
use lib::resolution::{
    ReferenceKind, Resolution, ResolvedReference, ResolvedScope, ResolvedSymbol, SymbolKind,
};
use lib::sorted_map::SortedMap;
use lib::transfers::{
    mark_awaited_eventual_binding, reject_move_only_index_projection,
    reject_move_only_index_result, reject_move_only_slice_element, reject_moved_field_projection,
    reject_repeated_outer_move, track_identifier_transfer, track_move_only_field_transfer,
    track_value_transfer, ProjectionRoot, ValueOperand,
};
use lib::types::{BuiltinType, CheckedType, CheckedTypeId};
use lib::widths::IntWidth;

fn at(line: usize) -> SyntaxOrigin {
    SyntaxOrigin { file: None, line, column: 5, length: 3 }
}

/// Scope 2 is a routine body, scope 3 the body of a loop in it. Symbol 10
/// is `job`, declared in the routine; symbol 11 is `item`, declared in the
/// loop. Syntax node 50 uses `job`, node 51 uses `item`.
fn resolution() -> Resolution {
    let mut resolved = Resolution::new();
    resolved.scopes.insert(ScopeId(2), ResolvedScope { parent: None, routine: true });
    resolved.scopes.insert(ScopeId(3), ResolvedScope { parent: Some(ScopeId(2)), routine: false });
    resolved.symbols.insert(SymbolId(10), declared("job", 2, Some(at(1))));
    resolved.symbols.insert(SymbolId(11), declared("item", 3, None));
    resolved.references.insert(ReferenceId(0), identifier_use(50, 10));
    resolved.references.insert(ReferenceId(1), identifier_use(51, 11));
    resolved
}

fn declared(name: &str, scope: usize, origin: Option<SyntaxOrigin>) -> ResolvedSymbol {
    ResolvedSymbol {
        name: name.to_string(),
        kind: SymbolKind::ValueBinding,
        source_unit: SourceUnitId(0),
        scope: ScopeId(scope),
        origin,
        mounted: false,
        is_mutable: false,
    }
}

fn identifier_use(node: usize, symbol: usize) -> ResolvedReference {
    ResolvedReference {
        kind: ReferenceKind::Identifier,
        syntax_id: Some(SyntaxNodeId(node)),
        source_unit: SourceUnitId(0),
        resolved: Some(SymbolId(symbol)),
    }
}

fn symbol(id: usize, declared_type: Option<CheckedTypeId>) -> TypedSymbol {
    TypedSymbol {
        symbol_id: SymbolId(id),
        kind: SymbolKind::ValueBinding,
        scope_id: ScopeId(2),
        source_unit_id: SourceUnitId(0),
        declared_type,
        receiver_type: None,
        param_defaults: Vec::new(),
        generic_params: Vec::new(),
        generic_constraints: SortedMap::new(),
        is_mutable: false,
        is_mutex: false,
        is_mutex_guard: false,
        is_channel_sender_capture: false,
        channel_receiver_params: SortedMap::new(),
    }
}

fn context(repeating_loop_scope: Option<ScopeId>) -> TypeContext {
    TypeContext {
        source_unit_id: SourceUnitId(0),
        scope_id: ScopeId(3),
        routine_return_type: None,
        routine_error_type: None,
        error_call_mode: ErrorCallMode::Propagate,
        processor_task_call: None,
        allow_mutex_handle: false,
        repeating_loop_scope,
        inside_deferred_block: false,
        inside_error_deferred_block: false,
        field_projection_root: false,
    }
}

struct Types {
    int: CheckedTypeId,
    owned: CheckedTypeId,
    eventual: CheckedTypeId,
    borrowed_owned: CheckedTypeId,
}

fn program() -> (TypedProgram, Types) {
    let mut typed = TypedProgram::new();
    let int = typed.intern_type(CheckedType::Builtin(BuiltinType::Int(IntWidth::DEFAULT)));
    let owned = typed.intern_type(CheckedType::Owned { inner: int });
    let eventual = typed.intern_type(CheckedType::Eventual { value_type: int, error_type: None });
    let borrowed_owned = typed.intern_type(CheckedType::Borrowed { inner: owned, mutable: false });
    typed.insert_typed_symbol(symbol(10, Some(owned)));
    typed.insert_typed_symbol(symbol(11, Some(owned)));
    (typed, Types { int, owned, eventual, borrowed_owned })
}

#[test]
fn transferring_an_owned_binding_moves_it() {
    let resolved = resolution();
    let (mut typed, types) = program();
    track_identifier_transfer(
        &mut typed,
        &resolved,
        context(None),
        Some(at(7)),
        SyntaxNodeId(50),
        "job",
        types.owned,
    )
    .unwrap();
    assert_eq!(typed.moved_binding_origin(SymbolId(10)), Some(&at(7)));
    assert!(typed.moved_binding_origin(SymbolId(11)).is_none());
}

#[test]
fn transferring_a_copy_value_records_nothing() {
    let resolved = resolution();
    let (mut typed, types) = program();
    track_identifier_transfer(
        &mut typed,
        &resolved,
        context(None),
        Some(at(7)),
        SyntaxNodeId(50),
        "job",
        types.int,
    )
    .unwrap();
    assert!(typed.moved_binding_origin(SymbolId(10)).is_none());
}

#[test]
fn transferring_an_eventual_consumes_it() {
    let resolved = resolution();
    let (mut typed, types) = program();
    track_identifier_transfer(
        &mut typed,
        &resolved,
        context(None),
        Some(at(8)),
        SyntaxNodeId(50),
        "job",
        types.eventual,
    )
    .unwrap();
    assert_eq!(typed.eventual_move_kind(SymbolId(10)), Some(EventualMoveKind::Transfer));
    assert_eq!(typed.moved_binding_origin(SymbolId(10)), Some(&at(8)));
}

#[test]
fn an_unresolved_identifier_records_nothing() {
    let resolved = resolution();
    let (mut typed, types) = program();
    track_identifier_transfer(
        &mut typed,
        &resolved,
        context(None),
        Some(at(7)),
        SyntaxNodeId(99),
        "ghost",
        types.owned,
    )
    .unwrap();
    assert!(typed.moved_binding_origin(SymbolId(10)).is_none());
}

#[test]
fn a_move_only_value_cannot_leave_a_borrow_binding() {
    let resolved = resolution();
    let (mut typed, types) = program();
    let error = track_identifier_transfer(
        &mut typed,
        &resolved,
        context(None),
        Some(at(9)),
        SyntaxNodeId(50),
        "view",
        types.borrowed_owned,
    )
    .unwrap_err();
    assert_eq!(error.kind(), TypecheckErrorKind::Ownership);
    assert_eq!(
        error.message(),
        "move-only value cannot be transferred out of borrow binding 'view'"
    );
    assert_eq!(error.diagnostic_location(), Some(&at(9)));
    assert!(typed.moved_binding_origin(SymbolId(10)).is_none());
}

#[test]
fn a_loop_body_cannot_move_a_binding_declared_outside_it() {
    let resolved = resolution();
    let error =
        reject_repeated_outer_move(&resolved, Some(ScopeId(3)), Some(at(12)), SymbolId(10), "job")
            .unwrap_err();
    assert_eq!(error.kind(), TypecheckErrorKind::Ownership);
    assert_eq!(
        error.message(),
        "move-only binding 'job' declared outside a repeating loop cannot be transferred from the loop body"
    );
    assert_eq!(error.diagnostic_location(), Some(&at(12)));
    assert_eq!(
        error.related_origins(),
        &vec![(at(1), "move-only binding declared here".to_string())]
    );
    assert!(reject_repeated_outer_move(&resolved, Some(ScopeId(3)), None, SymbolId(11), "item")
        .is_ok());
    assert!(reject_repeated_outer_move(&resolved, None, None, SymbolId(10), "job").is_ok());
    let lost = reject_repeated_outer_move(&resolved, Some(ScopeId(3)), None, SymbolId(40), "x")
        .unwrap_err();
    assert_eq!(lost.kind(), TypecheckErrorKind::Internal);
}

#[test]
fn a_refused_loop_move_leaves_the_binding_unmoved() {
    let resolved = resolution();
    let (mut typed, types) = program();
    let error = track_identifier_transfer(
        &mut typed,
        &resolved,
        context(Some(ScopeId(3))),
        Some(at(12)),
        SyntaxNodeId(50),
        "job",
        types.owned,
    )
    .unwrap_err();
    assert_eq!(error.kind(), TypecheckErrorKind::Ownership);
    assert!(typed.moved_binding_origin(SymbolId(10)).is_none());
    track_identifier_transfer(
        &mut typed,
        &resolved,
        context(Some(ScopeId(3))),
        Some(at(13)),
        SyntaxNodeId(51),
        "item",
        types.owned,
    )
    .unwrap();
    assert_eq!(typed.moved_binding_origin(SymbolId(11)), Some(&at(13)));
}

fn job_root(origin: Option<SyntaxOrigin>) -> Option<ProjectionRoot> {
    Some(ProjectionRoot { syntax_id: SyntaxNodeId(50), name: "job".to_string(), origin })
}

#[test]
fn moving_a_field_of_a_named_binding_moves_that_field_only() {
    let resolved = resolution();
    let (mut typed, types) = program();
    track_move_only_field_transfer(
        &mut typed,
        &resolved,
        context(None),
        Some(at(20)),
        job_root(Some(at(19))),
        true,
        "data",
        types.owned,
    )
    .unwrap();
    assert_eq!(typed.moved_field_origin(SymbolId(10), "data"), Some(&at(20)));
    assert!(typed.moved_field_origin(SymbolId(10), "other").is_none());
    assert!(typed.moved_binding_origin(SymbolId(10)).is_none());
}

#[test]
fn moving_a_field_of_a_deeper_projection_consumes_the_root() {
    let resolved = resolution();
    let (mut typed, types) = program();
    track_move_only_field_transfer(
        &mut typed,
        &resolved,
        context(None),
        Some(at(20)),
        job_root(Some(at(19))),
        false,
        "data",
        types.owned,
    )
    .unwrap();
    assert_eq!(typed.moved_binding_origin(SymbolId(10)), Some(&at(19)));
}

#[test]
fn a_field_cannot_leave_a_borrowed_root() {
    let resolved = resolution();
    let (mut typed, types) = program();
    typed.insert_typed_symbol(symbol(10, Some(types.borrowed_owned)));
    let error = track_move_only_field_transfer(
        &mut typed,
        &resolved,
        context(None),
        Some(at(20)),
        job_root(None),
        true,
        "data",
        types.owned,
    )
    .unwrap_err();
    assert_eq!(
        error.message(),
        "move-only field projection '.data' cannot be transferred from a borrowed value"
    );
}

#[test]
fn a_field_cannot_leave_a_mutex_root() {
    let resolved = resolution();
    let (mut typed, types) = program();
    let mut guarded = symbol(10, Some(types.owned));
    guarded.is_mutex = true;
    typed.insert_typed_symbol(guarded);
    let error = track_move_only_field_transfer(
        &mut typed,
        &resolved,
        context(None),
        Some(at(20)),
        job_root(None),
        true,
        "data",
        types.owned,
    )
    .unwrap_err();
    assert_eq!(
        error.message(),
        "move-only field projection '.data' cannot be transferred from a mutex-guarded value"
    );
}

#[test]
fn a_finalizing_value_cannot_be_moved_in_part() {
    let resolved = resolution();
    let (mut typed, types) = program();
    typed.record_fin_type(types.owned);
    let error = track_move_only_field_transfer(
        &mut typed,
        &resolved,
        context(None),
        Some(at(20)),
        job_root(None),
        true,
        "data",
        types.owned,
    )
    .unwrap_err();
    assert_eq!(
        error.message(),
        "cannot partially move field '.data' out of the 'fin' value 'job'; a finalized value must be moved whole so its finalizer sees the complete value"
    );
    assert_eq!(error.diagnostic_location(), Some(&at(20)));
    assert!(typed.moved_field_origin(SymbolId(10), "data").is_none());
}

#[test]
fn a_temporary_record_surrenders_its_field() {
    let resolved = resolution();
    let (mut typed, types) = program();
    track_move_only_field_transfer(
        &mut typed,
        &resolved,
        context(None),
        Some(at(20)),
        None,
        false,
        "data",
        types.owned,
    )
    .unwrap();
    assert!(typed.moved_binding_origin(SymbolId(10)).is_none());
}

#[test]
fn value_transfers_follow_the_shape_of_the_value() {
    let resolved = resolution();
    let (mut typed, types) = program();
    let error = track_value_transfer(
        &mut typed,
        &resolved,
        context(None),
        Some(ValueOperand::IndexAccess { origin: Some(at(30)) }),
        types.owned,
    )
    .unwrap_err();
    assert_eq!(
        error.message(),
        "move-only indexed projection cannot be transferred in V3; partial moves are not supported"
    );
    assert!(track_value_transfer(
        &mut typed,
        &resolved,
        context(None),
        Some(ValueOperand::IndexAccess { origin: Some(at(30)) }),
        types.int,
    )
    .is_ok());
    assert!(track_value_transfer(
        &mut typed,
        &resolved,
        context(None),
        Some(ValueOperand::Other),
        types.owned
    )
    .is_ok());
    assert!(track_value_transfer(&mut typed, &resolved, context(None), None, types.owned).is_ok());
    track_value_transfer(
        &mut typed,
        &resolved,
        context(None),
        Some(ValueOperand::FieldAccess {
            root: job_root(None),
            direct: true,
            field: "data".to_string(),
            origin: Some(at(31)),
        }),
        types.int,
    )
    .unwrap();
    assert!(typed.moved_field_origin(SymbolId(10), "data").is_none());
    track_value_transfer(
        &mut typed,
        &resolved,
        context(None),
        Some(ValueOperand::Identifier {
            syntax_id: SyntaxNodeId(51),
            name: "item".to_string(),
            origin: Some(at(32)),
        }),
        types.owned,
    )
    .unwrap();
    assert_eq!(typed.moved_binding_origin(SymbolId(11)), Some(&at(32)));
}

fn owners(origin: Option<SyntaxOrigin>, owners: &[usize]) -> Option<BorrowInitializer> {
    Some(BorrowInitializer { origin, owners: owners.iter().map(|o| SymbolId(*o)).collect() })
}

#[test]
fn a_borrow_binding_takes_a_loan_and_the_borrowed_type() {
    let resolved = resolution();
    let (mut typed, types) = program();
    typed.insert_typed_symbol(symbol(20, None));
    let borrowed = register_borrow_binding(
        &mut typed,
        &resolved,
        ScopeId(3),
        SymbolId(20),
        owners(Some(at(40)), &[10]),
        types.owned,
        false,
    )
    .unwrap();
    assert_eq!(borrowed, types.borrowed_owned);
    assert_eq!(typed.typed_symbol(SymbolId(20)).unwrap().declared_type, Some(borrowed));
    let loan = typed.active_borrow_for_owner(SymbolId(10)).unwrap();
    assert_eq!(loan.binding, SymbolId(20));
    assert_eq!(loan.scope, ScopeId(3));
    assert!(!loan.mutable);
    assert_eq!(loan.origin, at(40));
}

#[test]
fn a_borrow_binding_needs_an_initializer_and_an_owner() {
    let resolved = resolution();
    let (mut typed, types) = program();
    let error =
        register_borrow_binding(&mut typed, &resolved, ScopeId(3), SymbolId(20), None, types.int, false)
            .unwrap_err();
    assert_eq!(error.kind(), TypecheckErrorKind::InvalidInput);
    assert_eq!(error.message(), "borrow bindings require an owner initializer");
    let error = register_borrow_binding(
        &mut typed,
        &resolved,
        ScopeId(3),
        SymbolId(20),
        owners(Some(at(40)), &[]),
        types.int,
        false,
    )
    .unwrap_err();
    assert_eq!(
        error.message(),
        "borrow bindings require an identifier owner, '[bor]owner', or a borrow-returning call"
    );
    let error = register_borrow_binding(
        &mut typed,
        &resolved,
        ScopeId(3),
        SymbolId(20),
        owners(None, &[10]),
        types.int,
        false,
    )
    .unwrap_err();
    assert_eq!(error.kind(), TypecheckErrorKind::Internal);
    assert_eq!(error.message(), "borrow binding lost its syntax origin");
}

#[test]
fn a_borrow_binding_falls_back_to_its_declaration() {
    let mut resolved = resolution();
    resolved.symbols.insert(SymbolId(20), declared("view", 3, Some(at(44))));
    let (mut typed, types) = program();
    typed.insert_typed_symbol(symbol(20, None));
    register_borrow_binding(
        &mut typed,
        &resolved,
        ScopeId(3),
        SymbolId(20),
        owners(None, &[10]),
        types.int,
        false,
    )
    .unwrap();
    assert_eq!(typed.active_borrow_for_owner(SymbolId(10)).unwrap().origin, at(44));
}

#[test]
fn a_moved_owner_cannot_lend() {
    let resolved = resolution();
    let (mut typed, types) = program();
    typed.insert_typed_symbol(symbol(20, None));
    typed.mark_binding_moved(SymbolId(10), at(3));
    let error = register_borrow_binding(
        &mut typed,
        &resolved,
        ScopeId(3),
        SymbolId(20),
        owners(Some(at(40)), &[10]),
        types.owned,
        false,
    )
    .unwrap_err();
    assert_eq!(error.kind(), TypecheckErrorKind::Ownership);
    assert_eq!(error.message(), "cannot borrow from an owner whose value was already moved");
    assert_eq!(error.related_origins(), &vec![(at(3), "ownership moved here".to_string())]);
    assert!(typed.active_borrow_for_owner(SymbolId(10)).is_none());
}

#[test]
fn a_mutable_loan_needs_a_mutable_owner() {
    let resolved = resolution();
    let (mut typed, types) = program();
    typed.insert_typed_symbol(symbol(20, None));
    let error = register_borrow_binding(
        &mut typed,
        &resolved,
        ScopeId(3),
        SymbolId(20),
        owners(Some(at(40)), &[10]),
        types.owned,
        true,
    )
    .unwrap_err();
    assert_eq!(error.kind(), TypecheckErrorKind::BorrowMutability);
    assert_eq!(error.message(), "mutable borrow requires an owner declared with 'var[mut]'");
}

#[test]
fn a_loan_clashing_with_a_mutable_loan_is_refused() {
    let resolved = resolution();
    let (mut typed, types) = program();
    let mut owner = symbol(10, Some(types.owned));
    owner.is_mutable = true;
    typed.insert_typed_symbol(owner);
    typed.insert_typed_symbol(symbol(20, None));
    typed.insert_typed_symbol(symbol(21, None));
    register_borrow_binding(
        &mut typed,
        &resolved,
        ScopeId(3),
        SymbolId(20),
        owners(Some(at(40)), &[10]),
        types.owned,
        true,
    )
    .unwrap();
    let error = register_borrow_binding(
        &mut typed,
        &resolved,
        ScopeId(3),
        SymbolId(21),
        owners(Some(at(41)), &[10]),
        types.owned,
        false,
    )
    .unwrap_err();
    assert_eq!(error.kind(), TypecheckErrorKind::BorrowConflict);
    assert_eq!(
        error.message(),
        "borrow conflicts with an active mutable borrow of the same owner"
    );
    assert_eq!(error.diagnostic_location(), Some(&at(41)));
    assert_eq!(
        error.related_origins(),
        &vec![(at(40), "conflicting borrow created here".to_string())]
    );
    assert!(typed.typed_symbol(SymbolId(21)).unwrap().declared_type.is_none());
}

#[test]
fn a_mutable_loan_of_a_mutex_binds_its_lock_to_a_guard() {
    let resolved = resolution();
    let (mut typed, types) = program();
    let mut mutex = symbol(10, Some(types.owned));
    mutex.is_mutex = true;
    typed.insert_typed_symbol(mutex);
    typed.insert_typed_symbol(symbol(20, None));
    typed.register_mutex_guard(
        SymbolId(10),
        ActiveMutexGuard { scope: ScopeId(3), origin: at(2), bound: false },
    );
    register_borrow_binding(
        &mut typed,
        &resolved,
        ScopeId(3),
        SymbolId(20),
        owners(Some(at(40)), &[10]),
        types.int,
        true,
    )
    .unwrap();
    assert!(typed.active_mutex_guard(SymbolId(10)).unwrap().bound);
    assert!(typed.typed_symbol(SymbolId(20)).unwrap().is_mutex_guard);
}

#[test]
fn awaiting_an_eventual_binding_consumes_it() {
    let resolved = resolution();
    let (mut typed, _types) = program();
    let awaited = ValueOperand::Identifier {
        syntax_id: SyntaxNodeId(50),
        name: "job".to_string(),
        origin: Some(at(33)),
    };
    mark_awaited_eventual_binding(&mut typed, &resolved, context(None), &awaited).unwrap();
    assert_eq!(typed.eventual_move_kind(SymbolId(10)), Some(EventualMoveKind::Await));
    assert_eq!(typed.moved_binding_origin(SymbolId(10)), Some(&at(33)));
    let error = mark_awaited_eventual_binding(
        &mut typed,
        &resolved,
        context(Some(ScopeId(3))),
        &ValueOperand::Identifier {
            syntax_id: SyntaxNodeId(50),
            name: "job".to_string(),
            origin: Some(at(34)),
        },
    )
    .unwrap_err();
    assert_eq!(error.kind(), TypecheckErrorKind::Ownership);
    assert!(mark_awaited_eventual_binding(
        &mut typed,
        &resolved,
        context(None),
        &ValueOperand::Other
    )
    .is_ok());
}

#[test]
fn a_moved_field_cannot_be_read_but_its_siblings_can() {
    let resolved = resolution();
    let (mut typed, _types) = program();
    typed.mark_field_moved(SymbolId(10), "data", at(40));
    let object = ValueOperand::Identifier {
        syntax_id: SyntaxNodeId(50),
        name: "job".to_string(),
        origin: Some(at(41)),
    };
    let error = reject_moved_field_projection(&typed, &resolved, &object, "data").unwrap_err();
    assert_eq!(error.kind(), TypecheckErrorKind::Ownership);
    assert_eq!(error.message(), "use of moved field 'job.data'");
    assert_eq!(error.diagnostic_location(), Some(&at(41)));
    assert_eq!(error.related_origins(), &vec![(at(40), "field moved here".to_string())]);
    assert!(reject_moved_field_projection(&typed, &resolved, &object, "other").is_ok());
    assert!(reject_moved_field_projection(&typed, &resolved, &ValueOperand::Other, "data").is_ok());
}

#[test]
fn move_only_index_and_slice_reads_are_refused() {
    let (typed, types) = program();
    let error =
        reject_move_only_index_projection(&typed, Some(at(1)), true, types.owned, "key").unwrap_err();
    assert_eq!(
        error.message(),
        "index key observation through a move-only field projection is not supported in V3; lookup must not partially move its source"
    );
    assert!(reject_move_only_index_projection(&typed, Some(at(1)), false, types.owned, "key").is_ok());
    assert!(reject_move_only_index_projection(&typed, Some(at(1)), true, types.int, "key").is_ok());
    let error = reject_move_only_index_result(&typed, None, Some(at(2)), types.owned).unwrap_err();
    assert_eq!(
        error.message(),
        "move-only indexed projection cannot be read in V3; partial moves are not supported and clone-based reads would duplicate ownership"
    );
    assert_eq!(error.diagnostic_location(), Some(&at(2)));
    assert!(reject_move_only_index_result(&typed, None, None, types.int).is_ok());
    let error = reject_move_only_slice_element(&typed, Some(at(3)), types.owned).unwrap_err();
    assert_eq!(
        error.message(),
        "slices of move-only elements are not supported in V3; slice creation would clone unique ownership"
    );
    assert!(reject_move_only_slice_element(&typed, Some(at(3)), types.int).is_ok());
}
