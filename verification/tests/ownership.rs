use lib::config::TypecheckCapabilityModel;
use lib::ids::{ReferenceId, ScopeId, SourceUnitId, SymbolId, SyntaxNodeId, SyntaxOrigin};
use lib::resolution::{ReferenceKind, Resolution, ResolvedReference, ResolvedSymbol, SymbolKind};
use lib::types::{BuiltinType, CheckedType};
use lib::widths::{CharEncoding, FloatWidth, IntWidth};
use lib::model::{DeferredBindingUse, EventualMoveKind, TaskBorrow, TaskBorrowKind, TypedProgram};

fn at(line: usize, column: usize) -> SyntaxOrigin {
    SyntaxOrigin {
        file: Some("pkg/main.fol".to_string()),
        line,
        column,
        length: 1,
    }
}

#[test]
fn typed_program_defaults_to_std_capability_model() {
    let mut resolution = Resolution::new();
    resolution.package = "demo".to_string();
    let program = TypedProgram::from_resolution(resolution);
    assert_eq!(program.capability_model(), TypecheckCapabilityModel::Std);
}

#[test]
fn typed_program_shell_installs_builtin_types_for_resolved_programs() {
    let mut resolution = Resolution::new();
    resolution.package = "parser".to_string();
    resolution.symbols.insert(
        SymbolId(3),
        ResolvedSymbol {
            name: "value".to_string(),
            kind: SymbolKind::ValueBinding,
            is_mutable: true,
            source_unit: SourceUnitId(0),
            scope: ScopeId(1),
            origin: None,
            mounted: false,
        },
    );
    resolution.references.insert(
        ReferenceId(7),
        ResolvedReference {
            kind: ReferenceKind::Identifier,
            syntax_id: Some(SyntaxNodeId(4)),
            source_unit: SourceUnitId(0),
            resolved: Some(SymbolId(3)),
        },
    );
    let typed = TypedProgram::from_resolution(resolution);

    assert_eq!(typed.package_name(), "parser");
    let builtins = typed.builtin_types();
    assert_eq!(
        typed.type_table().get(builtins.str_),
        Some(&CheckedType::Builtin(BuiltinType::Str))
    );
    assert_eq!(
        typed.type_table().get(builtins.int),
        Some(&CheckedType::Builtin(BuiltinType::Int(IntWidth::DEFAULT)))
    );
    assert_eq!(
        typed.type_table().get(builtins.never),
        Some(&CheckedType::Builtin(BuiltinType::Never))
    );
    assert_eq!(typed.type_table().len(), 6);
    assert_eq!(typed.resolved().symbols.len(), 1);
    let symbol = typed.typed_symbol(SymbolId(3)).unwrap();
    assert_eq!(symbol.scope_id, ScopeId(1));
    assert!(symbol.is_mutable);
    assert_eq!(symbol.declared_type, None);
    let reference = typed.typed_reference(ReferenceId(7)).unwrap();
    assert_eq!(reference.resolved_type, None);
    assert_eq!(reference.kind, ReferenceKind::Identifier);
}

#[test]
fn a_new_program_holds_only_the_builtin_types() {
    let typed = TypedProgram::new();
    assert_eq!(typed.capability_model(), TypecheckCapabilityModel::Std);
    let core = TypedProgram::with_model(TypecheckCapabilityModel::Core);
    assert_eq!(core.capability_model(), TypecheckCapabilityModel::Core);
    assert_eq!(typed.type_table().len(), 6);
    let mut again = TypedProgram::new();
    let builtins = again.builtin_types();
    assert_eq!(again.intern_type(CheckedType::Builtin(BuiltinType::Bool)), builtins.bool_);
    assert_eq!(
        again.intern_type(CheckedType::Builtin(BuiltinType::Char(CharEncoding::DEFAULT))),
        builtins.char_
    );
    assert_eq!(
        again.intern_type(CheckedType::Builtin(BuiltinType::Float(FloatWidth::DEFAULT))),
        builtins.float
    );
    assert_eq!(again.type_table().len(), 6);
}

#[test]
fn a_move_keeps_its_first_origin_until_reinitialized() {
    let mut typed = TypedProgram::new();
    let x = SymbolId(1);
    typed.mark_binding_moved(x, at(2, 5));
    typed.mark_binding_moved(x, at(4, 5));
    assert_eq!(typed.moved_binding_origin(x), Some(&at(2, 5)));

    typed.mark_binding_reinitialized(x, Some(at(6, 1)));
    assert_eq!(typed.moved_binding_origin(x), None);
    assert_eq!(typed.moved_binding_origin_at(x, "pkg/main.fol", 3, 0), Some(&at(2, 5)));
    assert_eq!(typed.moved_binding_origin_at(x, "pkg/main.fol", 5, 0), Some(&at(4, 5)));
    assert_eq!(typed.moved_binding_origin_at(x, "pkg/main.fol", 7, 0), None);
    assert_eq!(typed.moved_binding_origin_at(x, "pkg/main.fol", 1, 0), None);
    assert_eq!(typed.moved_binding_origin_at(x, "other.fol", 5, 0), None);
}

#[test]
fn moving_a_field_leaves_the_other_fields() {
    let mut typed = TypedProgram::new();
    let job = SymbolId(3);
    typed.mark_field_moved(job, "payload", at(1, 1));
    typed.mark_field_moved(job, "name", at(2, 1));
    typed.mark_field_moved(job, "payload", at(3, 1));
    assert_eq!(typed.moved_field_origin(job, "payload"), Some(&at(1, 1)));
    assert_eq!(typed.moved_field_origin(job, "id"), None);
    let (first, origin) = typed.first_moved_field(job).unwrap();
    assert_eq!(first, "name");
    assert_eq!(origin, &at(2, 1));
    assert_eq!(typed.moved_binding_origin(job), None);

    typed.mark_binding_reinitialized(job, None);
    assert_eq!(typed.first_moved_field(job), None);
}

#[test]
fn consuming_an_eventual_records_how_and_ends_its_obligation() {
    let mut typed = TypedProgram::new();
    let handle = SymbolId(8);
    typed.register_recoverable_eventual_obligation(handle, ScopeId(1), ScopeId(2), Some(at(1, 1)));
    assert!(typed.recoverable_eventual_obligation(handle).is_some());

    typed.mark_eventual_awaited(handle, at(3, 1));
    assert_eq!(typed.eventual_move_kind(handle), Some(EventualMoveKind::Await));
    assert!(typed.recoverable_eventual_obligation(handle).is_none());
    assert_eq!(typed.moved_binding_origin(handle), Some(&at(3, 1)));

    typed.mark_eventual_transferred(handle, at(4, 1));
    assert_eq!(typed.eventual_move_kind(handle), Some(EventualMoveKind::Await));

    let other = SymbolId(9);
    typed.mark_eventual_transferred(other, at(5, 1));
    assert_eq!(typed.eventual_move_kind(other), Some(EventualMoveKind::Transfer));
}

#[test]
fn obligations_of_an_ending_scope_are_released() {
    let mut typed = TypedProgram::new();
    typed.register_recoverable_eventual_obligation(SymbolId(1), ScopeId(1), ScopeId(1), None);
    typed.register_recoverable_eventual_obligation(SymbolId(2), ScopeId(2), ScopeId(2), None);
    typed.register_recoverable_eventual_obligation(SymbolId(3), ScopeId(1), ScopeId(3), None);
    typed.release_recoverable_eventual_obligations_in_scope(ScopeId(1));
    assert!(typed.recoverable_eventual_obligation(SymbolId(1)).is_none());
    assert!(typed.recoverable_eventual_obligation(SymbolId(2)).is_some());
    assert!(typed.recoverable_eventual_obligation(SymbolId(3)).is_none());
    let left = typed.recoverable_eventual_obligations();
    assert_eq!(left.len(), 1);
    assert_eq!(left[0].0, SymbolId(2));
}

#[test]
fn moving_a_binding_a_deferred_block_reads_is_a_conflict() {
    let mut typed = TypedProgram::new();
    let x = SymbolId(4);
    let read = DeferredBindingUse {
        scope: ScopeId(7),
        origin: at(10, 3),
    };
    typed.register_deferred_binding_use(x, read.clone());
    typed.register_deferred_binding_use(x, read.clone());
    assert_eq!(typed.first_deferred_binding_use(x), Some(&read));

    typed.mark_binding_moved(x, at(11, 1));
    assert_eq!(typed.moved_binding_origin(x), None);
    typed.mark_binding_moved(x, at(12, 1));
    let conflict = typed.take_deferred_transfer_conflict().unwrap();
    assert_eq!(conflict.symbol, x);
    assert_eq!(conflict.transfer_origin, at(11, 1));
    assert_eq!(conflict.deferred_origin, at(10, 3));
    assert!(typed.take_deferred_transfer_conflict().is_none());

    typed.release_deferred_binding_uses_in_scope(ScopeId(7));
    assert!(typed.first_deferred_binding_use(x).is_none());
    typed.mark_binding_moved(x, at(13, 1));
    assert_eq!(typed.moved_binding_origin(x), Some(&at(13, 1)));
}

#[test]
fn task_loans_last_until_their_scope_ends() {
    let mut typed = TypedProgram::new();
    let state = SymbolId(2);
    let loan = TaskBorrow {
        scope: ScopeId(5),
        origin: at(3, 3),
        kind: TaskBorrowKind::SpawnTask,
    };
    typed.register_task_borrow(state, loan.clone());
    typed.register_task_borrow(state, loan.clone());
    typed.register_task_borrow(
        state,
        TaskBorrow {
            scope: ScopeId(6),
            origin: at(4, 3),
            kind: TaskBorrowKind::LocalClosure,
        },
    );
    assert_eq!(typed.first_task_borrow(state), Some(&loan));
    assert_eq!(loan.kind.describe(), "a spawned task");
    assert_eq!(TaskBorrowKind::LocalClosure.describe(), "a local closure");

    typed.release_task_borrows_in_scope(ScopeId(5));
    assert_eq!(typed.first_task_borrow(state).unwrap().scope, ScopeId(6));
    typed.release_task_borrows_in_scope(ScopeId(6));
    assert!(typed.first_task_borrow(state).is_none());

    assert!(!typed.is_bor_env_closure(SymbolId(11)));
    typed.mark_bor_env_closure(SymbolId(11));
    assert!(typed.is_bor_env_closure(SymbolId(11)));
}
