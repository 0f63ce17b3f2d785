use lib::arguments::BoundCallArg;
use lib::call_checks::{
    validate_call_site_borrows, validate_deferred_mutex_argument_forwarding,
    validate_eventual_call_argument, validate_mutex_argument_forwarding, ArgShape, CallArgFacts,
};
use lib::errors::TypecheckErrorKind;
use lib::exprs::{ErrorCallMode, TypeContext};
use lib::ids::{ReferenceId, ScopeId, SourceUnitId, SymbolId, SyntaxNodeId, SyntaxOrigin};
use lib::model::{ActiveBorrow, ActiveMutexGuard, TypedProgram, TypedSymbol};
use lib::resolution::{
    ReferenceKind, Resolution, ResolvedReference, ResolvedScope, ResolvedSymbol, SymbolKind,
};
use lib::sorted_map::SortedMap;
use lib::types::{BuiltinType, CheckedType, CheckedTypeId, RoutineType};
use lib::widths::IntWidth;

fn at(line: usize) -> SyntaxOrigin {
    SyntaxOrigin { file: None, line, column: 2, length: 4 }
}

/// Symbol 10 is `data`, used at nodes 60 and 61; symbol 11 is `view`, used
/// at node 62; symbol 12 is `lock`, used at node 63.
fn resolution() -> Resolution {
    let mut resolved = Resolution::new();
    resolved.scopes.insert(ScopeId(1), ResolvedScope { parent: None, routine: true });
    for (id, name) in [(10, "data"), (11, "view"), (12, "lock")] {
        resolved.symbols.insert(
            SymbolId(id),
            ResolvedSymbol {
                name: name.to_string(),
                kind: SymbolKind::ValueBinding,
                source_unit: SourceUnitId(0),
                scope: ScopeId(1),
                origin: None,
                mounted: false,
                is_mutable: false,
            },
        );
    }
    for (reference, node, symbol) in [(0, 60, 10), (1, 61, 10), (2, 62, 11), (3, 63, 12)] {
        resolved.references.insert(
            ReferenceId(reference),
            ResolvedReference {
                kind: ReferenceKind::Identifier,
                syntax_id: Some(SyntaxNodeId(node)),
                source_unit: SourceUnitId(0),
                resolved: Some(SymbolId(symbol)),
            },
        );
    }
    resolved
}

fn symbol(id: usize, declared_type: Option<CheckedTypeId>) -> TypedSymbol {
    TypedSymbol {
        symbol_id: SymbolId(id),
        kind: SymbolKind::ValueBinding,
        scope_id: ScopeId(1),
        source_unit_id: SourceUnitId(0),
        declared_type,
        receiver_type: None,
        param_defaults: Vec::new(),
        generic_params: Vec::new(),
        generic_constraints: SortedMap::new(),
        is_mutable: false,
        is_mutex: false,
        is_mutex_guard: false,
        is_channel_sender_capture: false,
        channel_receiver_params: SortedMap::new(),
    }
}

struct Types {
    int: CheckedTypeId,
    shared: CheckedTypeId,
    eventual: CheckedTypeId,
    optional_eventual: CheckedTypeId,
}

fn program() -> (TypedProgram, Types) {
    let mut typed = TypedProgram::new();
    let int = typed.intern_type(CheckedType::Builtin(BuiltinType::Int(IntWidth::DEFAULT)));
    let shared = typed.intern_type(CheckedType::Borrowed { inner: int, mutable: false });
    let eventual = typed.intern_type(CheckedType::Eventual { value_type: int, error_type: None });
    let optional_eventual = typed.intern_type(CheckedType::Optional { inner: eventual });
    typed.insert_typed_symbol(symbol(10, Some(int)));
    typed.insert_typed_symbol(symbol(11, Some(shared)));
    let mut lock = symbol(12, Some(int));
    lock.is_mutex = true;
    typed.insert_typed_symbol(lock);
    (typed, Types { int, shared, eventual, optional_eventual })
}

fn signature(params: Vec<CheckedTypeId>, mutex_params: &[usize]) -> RoutineType {
    let mut mutexes = SortedMap::new();
    for index in mutex_params {
        mutexes.insert(*index, ());
    }
    RoutineType {
        generic_params: Vec::new(),
        generic_constraints: SortedMap::new(),
        param_names: Vec::new(),
        param_defaults: params.iter().map(|_| None).collect(),
        variadic_index: None,
        mutex_params: mutexes,
        params,
        return_type: None,
        error_type: None,
        env_lifetime: false,
    }
}

fn borrow_of(node: usize, line: usize) -> CallArgFacts {
    CallArgFacts {
        origin: Some(at(line)),
        shape: ArgShape::BorrowFrom(Some(SyntaxNodeId(node))),
        syntax_ids: vec![SyntaxNodeId(node)],
    }
}

fn name_use(node: usize, line: usize) -> CallArgFacts {
    CallArgFacts {
        origin: Some(at(line)),
        shape: ArgShape::Identifier(SyntaxNodeId(node)),
        syntax_ids: vec![SyntaxNodeId(node)],
    }
}

fn explicit(n: usize) -> Vec<BoundCallArg> {
    (0..n).map(BoundCallArg::Explicit).collect()
}

#[test]
fn a_borrow_parameter_takes_a_loan_of_its_owner() {
    let resolved = resolution();
    let (typed, types) = program();
    let sig = signature(vec![types.shared, types.int], &[]);
    let facts = vec![borrow_of(60, 3), CallArgFacts { origin: None, shape: ArgShape::Other, syntax_ids: vec![] }];
    assert!(validate_call_site_borrows(&typed, &resolved, &sig, &explicit(2), &facts, "f", None).is_ok());
}

#[test]
fn a_call_site_loan_may_not_clash_with_a_live_loan() {
    let resolved = resolution();
    let (mut typed, types) = program();
    typed.register_borrow(ActiveBorrow {
        owner: SymbolId(10),
        binding: SymbolId(30),
        scope: ScopeId(1),
        mutable: true,
        origin: at(1),
    });
    let sig = signature(vec![types.shared], &[]);
    let facts = vec![borrow_of(60, 3)];
    let error = validate_call_site_borrows(&typed, &resolved, &sig, &explicit(1), &facts, "f", None)
        .unwrap_err();
    assert_eq!(error.kind(), TypecheckErrorKind::BorrowConflict);
    assert_eq!(
        error.message(),
        "call to 'f' borrows an owner that already has an incompatible active borrow"
    );
    assert_eq!(error.diagnostic_location(), Some(&at(3)));
    assert_eq!(
        error.related_origins(),
        &vec![(at(1), "conflicting borrow created here".to_string())]
    );
}

#[test]
fn a_borrow_parameter_refuses_a_plain_value() {
    let resolved = resolution();
    let (typed, types) = program();
    let sig = signature(vec![types.shared], &[]);
    let facts = vec![name_use(60, 4)];
    let error = validate_call_site_borrows(&typed, &resolved, &sig, &explicit(1), &facts, "g", None)
        .unwrap_err();
    assert_eq!(
        error.message(),
        "call to 'g' must pass '#owner' or an existing borrow binding to a [bor] parameter"
    );
    assert_eq!(error.diagnostic_location(), Some(&at(4)));
}

#[test]
fn a_borrow_parameter_accepts_a_borrow_binding() {
    let resolved = resolution();
    let (typed, types) = program();
    let sig = signature(vec![types.shared], &[]);
    let facts = vec![name_use(62, 4)];
    assert!(validate_call_site_borrows(&typed, &resolved, &sig, &explicit(1), &facts, "g", None).is_ok());
}

#[test]
fn another_argument_may_not_touch_a_loaned_owner() {
    let resolved = resolution();
    let (typed, types) = program();
    let sig = signature(vec![types.shared, types.int], &[]);
    let facts = vec![borrow_of(60, 3), name_use(61, 5)];
    let error = validate_call_site_borrows(&typed, &resolved, &sig, &explicit(2), &facts, "h", None)
        .unwrap_err();
    assert_eq!(error.kind(), TypecheckErrorKind::BorrowConflict);
    assert_eq!(
        error.message(),
        "call to 'h' accesses an owner in another argument while it is borrowed for a [bor] parameter"
    );
    assert_eq!(error.diagnostic_location(), Some(&at(5)));
    assert_eq!(
        error.related_origins(),
        &vec![(at(3), "call-site borrow created here".to_string())]
    );
}

#[test]
fn two_shared_loans_of_one_owner_may_share_a_call() {
    let resolved = resolution();
    let (typed, types) = program();
    let sig = signature(vec![types.shared, types.shared], &[]);
    let facts = vec![borrow_of(60, 3), borrow_of(61, 5)];
    assert!(validate_call_site_borrows(&typed, &resolved, &sig, &explicit(2), &facts, "h", None).is_ok());
}

#[test]
fn one_mutex_handle_may_not_go_to_two_mutex_parameters() {
    let resolved = resolution();
    let (typed, types) = program();
    let sig = signature(vec![types.int, types.int], &[0, 1]);
    let facts = vec![name_use(63, 7), name_use(63, 8)];
    let error = validate_mutex_argument_forwarding(
        &typed,
        &resolved,
        &sig,
        &explicit(2),
        &facts,
        "swap",
        None,
        false,
    )
    .unwrap_err();
    assert_eq!(error.kind(), TypecheckErrorKind::InvalidInput);
    assert_eq!(
        error.message(),
        "call to 'swap' cannot forward mutex handle 'lock' to both [mux] parameter 0 and [mux] parameter 1; aliased mutex parameters can self-deadlock"
    );
    assert_eq!(error.diagnostic_location(), Some(&at(8)));
    assert_eq!(
        error.related_origins(),
        &vec![(at(7), "same mutex handle first forwarded here".to_string())]
    );
}

#[test]
fn a_locked_mutex_handle_may_only_cross_to_a_task() {
    let resolved = resolution();
    let (mut typed, types) = program();
    typed.register_mutex_guard(
        SymbolId(12),
        ActiveMutexGuard { scope: ScopeId(1), origin: at(2), bound: false },
    );
    let sig = signature(vec![types.int], &[0]);
    let facts = vec![name_use(63, 7)];
    let error = validate_mutex_argument_forwarding(
        &typed,
        &resolved,
        &sig,
        &explicit(1),
        &facts,
        "use_it",
        None,
        false,
    )
    .unwrap_err();
    assert_eq!(
        error.message(),
        "call to 'use_it' cannot synchronously forward mutex handle 'lock' while its lock is active; unlock it before the call"
    );
    assert_eq!(error.related_origins(), &vec![(at(2), "mutex lock acquired here".to_string())]);
    assert!(validate_mutex_argument_forwarding(
        &typed,
        &resolved,
        &sig,
        &explicit(1),
        &facts,
        "use_it",
        None,
        true,
    )
    .is_ok());
}

fn context(inside_deferred_block: bool) -> TypeContext {
    TypeContext {
        source_unit_id: SourceUnitId(0),
        scope_id: ScopeId(1),
        routine_return_type: None,
        routine_error_type: None,
        error_call_mode: ErrorCallMode::Propagate,
        processor_task_call: None,
        allow_mutex_handle: false,
        repeating_loop_scope: None,
        inside_deferred_block,
        inside_error_deferred_block: false,
        field_projection_root: false,
    }
}

#[test]
fn a_deferred_block_may_not_forward_a_mutex_handle() {
    let resolved = resolution();
    let (typed, types) = program();
    let sig = signature(vec![types.int, types.int], &[1]);
    let facts = vec![name_use(60, 6), name_use(63, 7)];
    let error = validate_deferred_mutex_argument_forwarding(
        &typed,
        &resolved,
        context(true),
        &sig,
        &explicit(2),
        &facts,
        "later",
    )
    .unwrap_err();
    assert_eq!(error.kind(), TypecheckErrorKind::Unsupported);
    assert_eq!(
        error.message(),
        "mutex handles cannot be forwarded to [mux] parameter 1 of 'later' inside dfr/edf in V3; delayed mutex guard effects are not modeled"
    );
    assert_eq!(error.diagnostic_location(), Some(&at(7)));
    assert!(validate_deferred_mutex_argument_forwarding(
        &typed,
        &resolved,
        context(false),
        &sig,
        &explicit(2),
        &facts,
        "later",
    )
    .is_ok());
}

#[test]
fn an_eventual_may_not_pass_a_generic_parameter() {
    let (typed, types) = program();
    let error =
        validate_eventual_call_argument(&typed, None, types.eventual, true, "wrap", Some(at(9)))
            .unwrap_err();
    assert_eq!(error.kind(), TypecheckErrorKind::Ownership);
    assert_eq!(
        error.message(),
        "call to 'wrap' cannot pass an internal eventual through a generic parameter in V3; await it before the call"
    );
    assert_eq!(error.diagnostic_location(), Some(&at(9)));
    assert!(validate_eventual_call_argument(&typed, None, types.eventual, false, "wrap", None).is_ok());
    assert!(validate_eventual_call_argument(&typed, None, types.int, true, "wrap", None).is_ok());
}

#[test]
fn an_argument_may_not_embed_an_eventual() {
    let (typed, types) = program();
    let error = validate_eventual_call_argument(
        &typed,
        Some(at(3)),
        types.optional_eventual,
        false,
        "keep",
        Some(at(9)),
    )
    .unwrap_err();
    assert_eq!(
        error.message(),
        "argument to 'keep' cannot embed the internal eventual type in a composite value in V3; transfer or await the eventual directly"
    );
    assert_eq!(error.diagnostic_location(), Some(&at(3)));
}
