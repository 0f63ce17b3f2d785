use lib::errors::TypecheckErrorKind;
use lib::ids::{ReferenceId, ScopeId, SourceUnitId, SymbolId, SyntaxNodeId, SyntaxOrigin};
use lib::model::{
    DeferredBindingUse, RecoverableCallEffect, TypedProgram, TypedReference, TypedSymbol,
};
use lib::resolution::{
    nearest_routine_scope, scope_descends_from, scope_is_same_or_ancestor, Resolution,
    ResolvedScope, ResolvedSymbol, SymbolKind, find_symbol_in_scope, find_symbol_in_scope_chain,
    find_reference_by_syntax, origin_for, ReferenceKind, ResolvedReference,
};
use lib::scope_rules::{
    reject_all_recoverable_eventuals, reject_recoverable_eventual_overwrite,
    reject_recoverable_eventuals_in_scope, reject_recoverable_eventuals_leaving_scope,
    reject_unsupported_top_level_binding_type, take_deferred_transfer_error,
    binding_is_mutable_by_name, ensure_binding_reassignable, record_symbol_type,
    routine_signature_for_symbol, symbol_type, routine_signature_for_reference,
    type_for_reference,
};
use lib::sorted_map::SortedMap;
use lib::types::{BuiltinType, CheckedType, CheckedTypeId, RoutineType};
use lib::widths::IntWidth;

fn at(line: usize) -> SyntaxOrigin {
    SyntaxOrigin {
        file: None,
        line,
        column: 1,
        length: 4,
    }
}

/// Scope 1 is the package, 2 a routine in it, 3 a block in the routine and
/// 4 a block in that; symbol 10 is `job` in scope 3 and 11 `glob` in scope 1.
fn resolution() -> Resolution {
    let mut resolved = Resolution::new();
    resolved.scopes.insert(
        ScopeId(1),
        ResolvedScope {
            parent: None,
            routine: false,
        },
    );
    resolved.scopes.insert(
        ScopeId(2),
        ResolvedScope {
            parent: Some(ScopeId(1)),
            routine: true,
        },
    );
    resolved.scopes.insert(
        ScopeId(3),
        ResolvedScope {
            parent: Some(ScopeId(2)),
            routine: false,
        },
    );
    resolved.scopes.insert(
        ScopeId(4),
        ResolvedScope {
            parent: Some(ScopeId(3)),
            routine: false,
        },
    );
    resolved.symbols.insert(
        SymbolId(10),
        resolved_symbol("job", SymbolKind::ValueBinding, 3, Some(at(30))),
    );
    resolved.symbols.insert(
        SymbolId(11),
        resolved_symbol("glob", SymbolKind::ValueBinding, 1, None),
    );
    resolved
}

fn resolved_symbol(
    name: &str,
    kind: SymbolKind,
    scope: usize,
    origin: Option<SyntaxOrigin>,
) -> ResolvedSymbol {
    ResolvedSymbol {
        name: name.to_string(),
        kind,
        source_unit: SourceUnitId(0),
        scope: ScopeId(scope),
        origin,
        mounted: false,
        is_mutable: false,
    }
}

fn typed_symbol(id: usize, scope: usize, declared_type: Option<CheckedTypeId>) -> TypedSymbol {
    TypedSymbol {
        symbol_id: SymbolId(id),
        kind: SymbolKind::ValueBinding,
        scope_id: ScopeId(scope),
        source_unit_id: SourceUnitId(0),
        declared_type,
        receiver_type: None,
        param_defaults: Vec::new(),
        generic_params: Vec::new(),
        generic_constraints: SortedMap::new(),
        is_mutable: false,
        is_mutex: false,
        is_mutex_guard: false,
        is_channel_sender_capture: false,
        channel_receiver_params: SortedMap::new(),
    }
}

#[test]
fn scopes_descend_from_each_enclosing_scope() {
    let resolved = resolution();
    assert!(scope_descends_from(&resolved, ScopeId(4), ScopeId(4)));
    assert!(scope_descends_from(&resolved, ScopeId(4), ScopeId(1)));
    assert!(!scope_descends_from(&resolved, ScopeId(2), ScopeId(3)));
    assert!(!scope_descends_from(&resolved, ScopeId(9), ScopeId(1)));
    assert!(scope_is_same_or_ancestor(&resolved, ScopeId(2), ScopeId(3)));
    assert!(!scope_is_same_or_ancestor(&resolved, ScopeId(3), ScopeId(2)));
}

#[test]
fn the_nearest_routine_body_encloses_a_scope() {
    let resolved = resolution();
    assert_eq!(nearest_routine_scope(&resolved, ScopeId(4)), Some(ScopeId(2)));
    assert_eq!(nearest_routine_scope(&resolved, ScopeId(2)), Some(ScopeId(2)));
    assert_eq!(nearest_routine_scope(&resolved, ScopeId(1)), None);
    assert_eq!(nearest_routine_scope(&resolved, ScopeId(9)), None);
}

#[test]
fn leaving_a_scope_with_an_unhandled_recoverable_eventual_is_refused() {
    let resolved = resolution();
    let mut typed = TypedProgram::new();
    typed.register_recoverable_eventual_obligation(SymbolId(10), ScopeId(3), ScopeId(4), Some(at(7)));
    assert!(reject_recoverable_eventuals_in_scope(&typed, &resolved, ScopeId(4)).is_ok());
    let error = reject_recoverable_eventuals_in_scope(&typed, &resolved, ScopeId(3)).unwrap_err();
    assert_eq!(error.kind(), TypecheckErrorKind::InvalidInput);
    assert_eq!(
        error.message(),
        "recoverable eventual binding 'job' must be awaited and handled with '||' or check(...) before leaving its lexical scope"
    );
    assert_eq!(error.diagnostic_location(), Some(&at(7)));
    assert!(error.related_origins().is_empty());
}

#[test]
fn returning_from_the_routine_reports_at_the_exit_and_the_creation() {
    let resolved = resolution();
    let mut typed = TypedProgram::new();
    typed.register_recoverable_eventual_obligation(SymbolId(10), ScopeId(3), ScopeId(4), Some(at(7)));
    let error =
        reject_all_recoverable_eventuals(&typed, &resolved, ScopeId(4), Some(at(20)), "returning")
            .unwrap_err();
    assert_eq!(
        error.message(),
        "recoverable eventual binding 'job' must be awaited and handled with '||' or check(...) before returning"
    );
    assert_eq!(error.diagnostic_location(), Some(&at(20)));
    assert_eq!(
        error.related_origins(),
        &vec![(at(7), "recoverable eventual created here".to_string())]
    );
    assert!(
        reject_all_recoverable_eventuals(&typed, &resolved, ScopeId(1), None, "returning").is_ok()
    );
}

#[test]
fn breaking_out_of_a_scope_checks_what_was_activated_inside_it() {
    let resolved = resolution();
    let mut typed = TypedProgram::new();
    typed.register_recoverable_eventual_obligation(SymbolId(10), ScopeId(3), ScopeId(4), Some(at(7)));
    typed.register_recoverable_eventual_obligation(SymbolId(12), ScopeId(2), ScopeId(2), None);
    assert!(reject_recoverable_eventuals_leaving_scope(
        &typed,
        &resolved,
        ScopeId(9),
        None,
        "breaking"
    )
    .is_ok());
    let error = reject_recoverable_eventuals_leaving_scope(
        &typed,
        &resolved,
        ScopeId(3),
        Some(at(7)),
        "breaking",
    )
    .unwrap_err();
    assert_eq!(
        error.message(),
        "recoverable eventual binding 'job' must be awaited and handled with '||' or check(...) before breaking"
    );
    assert!(error.related_origins().is_empty());
    let error =
        reject_recoverable_eventuals_leaving_scope(&typed, &resolved, ScopeId(1), None, "breaking")
            .unwrap_err();
    assert!(error.message().contains("'job'"));
    assert!(reject_recoverable_eventuals_in_scope(&typed, &resolved, ScopeId(2))
        .unwrap_err()
        .message()
        .contains("'<unknown>'"));
}

#[test]
fn overwriting_an_unhandled_recoverable_eventual_is_refused() {
    let resolved = resolution();
    let mut typed = TypedProgram::new();
    assert!(reject_recoverable_eventual_overwrite(&typed, &resolved, SymbolId(10), None).is_ok());
    typed.register_recoverable_eventual_obligation(SymbolId(10), ScopeId(3), ScopeId(3), Some(at(7)));
    let error =
        reject_recoverable_eventual_overwrite(&typed, &resolved, SymbolId(10), Some(at(9)))
            .unwrap_err();
    assert_eq!(
        error.message(),
        "recoverable eventual binding 'job' cannot be overwritten before it is awaited and handled with '||' or check(...)"
    );
    assert_eq!(error.diagnostic_location(), Some(&at(9)));
    assert_eq!(error.related_origins().len(), 1);
}

#[test]
fn a_deferred_read_conflict_is_reported_once() {
    let resolved = resolution();
    let mut typed = TypedProgram::new();
    assert!(take_deferred_transfer_error(&mut typed, &resolved).is_none());
    typed.register_deferred_binding_use(
        SymbolId(10),
        DeferredBindingUse {
            scope: ScopeId(3),
            origin: at(5),
        },
    );
    typed.mark_binding_moved(SymbolId(10), at(6));
    let error = take_deferred_transfer_error(&mut typed, &resolved).unwrap();
    assert_eq!(error.kind(), TypecheckErrorKind::Ownership);
    assert_eq!(
        error.message(),
        "move-only binding 'job' cannot be transferred after it is referenced by a dfr/edf body in the same lexical scope"
    );
    assert_eq!(error.diagnostic_location(), Some(&at(6)));
    assert_eq!(
        error.related_origins(),
        &vec![(at(5), "deferred use registered here".to_string())]
    );
    assert!(take_deferred_transfer_error(&mut typed, &resolved).is_none());
}

#[test]
fn global_storage_refuses_channels_and_move_only_values() {
    let resolved = resolution();
    let mut typed = TypedProgram::new();
    let int = typed.intern_type(CheckedType::Builtin(BuiltinType::Int(IntWidth::DEFAULT)));
    let channel = typed.intern_type(CheckedType::Channel { element_type: int });
    let owned = typed.intern_type(CheckedType::Owned { inner: int });
    let borrowed = typed.intern_type(CheckedType::Borrowed {
        inner: int,
        mutable: false,
    });
    typed.insert_typed_symbol(typed_symbol(11, 1, Some(channel)));

    assert!(reject_unsupported_top_level_binding_type(&typed, &resolved, SymbolId(10), channel, None).is_ok());
    assert!(reject_unsupported_top_level_binding_type(&typed, &resolved, SymbolId(11), int, None).is_ok());
    let error = reject_unsupported_top_level_binding_type(
        &typed,
        &resolved,
        SymbolId(11),
        channel,
        Some(at(2)),
    )
    .unwrap_err();
    assert_eq!(error.kind(), TypecheckErrorKind::Unsupported);
    assert_eq!(
        error.message(),
        "top-level channel bindings are not supported in V3; declare the channel inside its receiving routine"
    );
    assert_eq!(error.diagnostic_location(), Some(&at(2)));
    let error =
        reject_unsupported_top_level_binding_type(&typed, &resolved, SymbolId(11), owned, None)
            .unwrap_err();
    assert_eq!(
        error.message(),
        "top-level move-only bindings are not supported in V3; global loads cannot transfer unique ownership, so declare the value inside a routine"
    );
    let error =
        reject_unsupported_top_level_binding_type(&typed, &resolved, SymbolId(11), borrowed, None)
            .unwrap_err();
    assert_eq!(
        error.message(),
        "top-level bindings containing borrowed values are not supported in V3; global storage cannot preserve lexical borrow lifetimes"
    );
}

#[test]
fn names_resolve_in_the_nearest_declaring_scope() {
    let mut resolved = resolution();
    resolved.symbols.insert(
        SymbolId(20),
        resolved_symbol("x", SymbolKind::ValueBinding, 2, None),
    );
    resolved.symbols.insert(
        SymbolId(21),
        resolved_symbol("x", SymbolKind::ValueBinding, 3, None),
    );
    resolved.symbols.insert(
        SymbolId(22),
        resolved_symbol("x", SymbolKind::Parameter, 2, None),
    );
    let unit = SourceUnitId(0);
    assert_eq!(
        find_symbol_in_scope(&resolved, unit, ScopeId(2), "x", SymbolKind::ValueBinding),
        Some(SymbolId(20))
    );
    assert_eq!(
        find_symbol_in_scope(&resolved, unit, ScopeId(4), "x", SymbolKind::ValueBinding),
        None
    );
    assert_eq!(
        find_symbol_in_scope_chain(&resolved, unit, ScopeId(4), "x", SymbolKind::ValueBinding),
        Some(SymbolId(21))
    );
    assert_eq!(
        find_symbol_in_scope_chain(&resolved, unit, ScopeId(4), "x", SymbolKind::Parameter),
        Some(SymbolId(22))
    );
    assert_eq!(
        find_symbol_in_scope_chain(&resolved, unit, ScopeId(4), "y", SymbolKind::ValueBinding),
        None
    );
    assert_eq!(
        find_symbol_in_scope_chain(&resolved, SourceUnitId(1), ScopeId(4), "x", SymbolKind::ValueBinding),
        None
    );
}

#[test]
fn immutable_bindings_cannot_be_reassigned_or_assigned_through() {
    let resolved = resolution();
    let mut typed = TypedProgram::new();
    let unit = SourceUnitId(0);
    assert!(ensure_binding_reassignable(&typed, &resolved, unit, ScopeId(4), "job").is_ok());
    typed.insert_typed_symbol(typed_symbol(10, 3, None));
    let error = ensure_binding_reassignable(&typed, &resolved, unit, ScopeId(4), "job").unwrap_err();
    assert_eq!(error.kind(), TypecheckErrorKind::InvalidInput);
    assert_eq!(error.message(), "cannot reassign immutable binding 'job'");
    assert!(!binding_is_mutable_by_name(&typed, &resolved, unit, ScopeId(4), "job"));

    let mut mutable = typed_symbol(10, 3, None);
    mutable.is_mutable = true;
    typed.insert_typed_symbol(mutable);
    assert!(ensure_binding_reassignable(&typed, &resolved, unit, ScopeId(4), "job").is_ok());
    assert!(binding_is_mutable_by_name(&typed, &resolved, unit, ScopeId(4), "job"));
    assert!(!binding_is_mutable_by_name(&typed, &resolved, unit, ScopeId(4), "nothing"));
}

#[test]
fn recording_a_binding_type_finds_the_binding_by_name() {
    let resolved = resolution();
    let mut typed = TypedProgram::new();
    let int = typed.intern_type(CheckedType::Builtin(BuiltinType::Int(IntWidth::DEFAULT)));
    let unit = SourceUnitId(0);
    let error = record_symbol_type(&mut typed, &resolved, unit, ScopeId(4), "job", SymbolKind::ValueBinding, int)
        .unwrap_err();
    assert_eq!(error.kind(), TypecheckErrorKind::Internal);
    assert_eq!(error.message(), "typed symbol facts lost local symbol 'job'");
    typed.insert_typed_symbol(typed_symbol(10, 3, None));
    record_symbol_type(&mut typed, &resolved, unit, ScopeId(4), "job", SymbolKind::ValueBinding, int)
        .unwrap();
    assert_eq!(typed.typed_symbol(SymbolId(10)).unwrap().declared_type, Some(int));
    assert_eq!(symbol_type(&typed, &resolved, SymbolId(10), None).unwrap(), int);
    assert!(record_symbol_type(&mut typed, &resolved, unit, ScopeId(4), "other", SymbolKind::ValueBinding, int).is_err());
}

#[test]
fn symbol_types_come_from_declarations_or_explain_their_absence() {
    let mut resolved = resolution();
    let mut typed = TypedProgram::new();
    let int = typed.intern_type(CheckedType::Builtin(BuiltinType::Int(IntWidth::DEFAULT)));
    typed.insert_typed_symbol(typed_symbol(11, 1, Some(int)));
    assert_eq!(symbol_type(&typed, &resolved, SymbolId(11), None).unwrap(), int);

    let error = symbol_type(&typed, &resolved, SymbolId(10), Some(at(2))).unwrap_err();
    assert_eq!(
        error.message(),
        "binding 'job' needs a declared type or an inferable initializer in V1"
    );
    assert_eq!(error.diagnostic_location(), Some(&at(30)));

    let mut imported = resolved_symbol("io", SymbolKind::Routine, 1, None);
    imported.mounted = true;
    resolved.symbols.insert(SymbolId(40), imported);
    let error = symbol_type(&typed, &resolved, SymbolId(40), None).unwrap_err();
    assert_eq!(error.kind(), TypecheckErrorKind::Unsupported);
    assert_eq!(
        error.message(),
        "imported symbol 'io' requires workspace-aware typechecking in V1; the legacy single-package path is not sufficient"
    );
    assert_eq!(
        error.diagnostic_location(),
        Some(&SyntaxOrigin {
            file: None,
            line: 1,
            column: 1,
            length: 1
        })
    );

    let error = symbol_type(&typed, &resolved, SymbolId(77), Some(at(3))).unwrap_err();
    assert_eq!(error.message(), "resolved symbol 77 does not have a lowered type yet");
    assert_eq!(error.diagnostic_location(), Some(&at(3)));
}

#[test]
fn routine_signatures_come_from_routine_types() {
    let resolved = resolution();
    let mut typed = TypedProgram::new();
    let int = typed.intern_type(CheckedType::Builtin(BuiltinType::Int(IntWidth::DEFAULT)));
    let routine = typed.intern_type(CheckedType::Routine(RoutineType {
        generic_params: Vec::new(),
        generic_constraints: SortedMap::new(),
        param_names: vec!["n".to_string()],
        param_defaults: vec![None],
        variadic_index: None,
        mutex_params: SortedMap::new(),
        params: vec![int],
        return_type: Some(int),
        error_type: None,
        env_lifetime: false,
    }));
    typed.insert_typed_symbol(typed_symbol(30, 1, Some(routine)));
    typed.insert_typed_symbol(typed_symbol(11, 1, Some(int)));
    let signature = routine_signature_for_symbol(&typed, &resolved, SymbolId(30), None).unwrap();
    assert_eq!(signature.params, vec![int]);
    assert_eq!(signature.return_type, Some(int));
    let error = routine_signature_for_symbol(&typed, &resolved, SymbolId(11), None).unwrap_err();
    assert_eq!(error.message(), "resolved routine symbol 11 is not callable");
}

fn reference(kind: ReferenceKind, syntax: usize, resolved: Option<usize>) -> ResolvedReference {
    ResolvedReference {
        kind,
        syntax_id: Some(SyntaxNodeId(syntax)),
        source_unit: SourceUnitId(0),
        resolved: resolved.map(SymbolId),
    }
}

fn typed_reference(id: usize) -> TypedReference {
    TypedReference {
        reference_id: ReferenceId(id),
        kind: ReferenceKind::Identifier,
        source_unit_id: SourceUnitId(0),
        resolved_type: None,
        recoverable_effect: None,
    }
}

fn routine_type(typed: &mut TypedProgram, generic: bool) -> CheckedTypeId {
    let int = typed.intern_type(CheckedType::Builtin(BuiltinType::Int(IntWidth::DEFAULT)));
    typed.intern_type(CheckedType::Routine(RoutineType {
        generic_params: if generic { vec![SymbolId(90)] } else { Vec::new() },
        generic_constraints: SortedMap::new(),
        param_names: Vec::new(),
        param_defaults: Vec::new(),
        variadic_index: None,
        mutex_params: SortedMap::new(),
        params: Vec::new(),
        return_type: Some(int),
        error_type: None,
        env_lifetime: false,
    }))
}

#[test]
fn name_uses_are_found_by_syntax_node_and_kind() {
    let mut resolved = resolution();
    resolved.references.insert(ReferenceId(5), reference(ReferenceKind::Identifier, 40, Some(10)));
    resolved.references.insert(ReferenceId(3), reference(ReferenceKind::FunctionCall, 40, None));
    resolved.origins.insert(SyntaxNodeId(41), at(41));
    assert_eq!(
        find_reference_by_syntax(&resolved, SyntaxNodeId(40), ReferenceKind::Identifier, "job").unwrap(),
        ReferenceId(5)
    );
    assert_eq!(
        find_reference_by_syntax(&resolved, SyntaxNodeId(40), ReferenceKind::FunctionCall, "job").unwrap(),
        ReferenceId(3)
    );
    let error =
        find_reference_by_syntax(&resolved, SyntaxNodeId(41), ReferenceKind::Identifier, "gone")
            .unwrap_err();
    assert_eq!(error.message(), "reference 'gone' is missing from resolver output");
    assert_eq!(error.diagnostic_location(), Some(&at(41)));
    let error =
        find_reference_by_syntax(&resolved, SyntaxNodeId(42), ReferenceKind::Identifier, "gone")
            .unwrap_err();
    assert_eq!(
        error.diagnostic_location(),
        Some(&SyntaxOrigin {
            file: None,
            line: 1,
            column: 1,
            length: 4
        })
    );
    assert_eq!(origin_for(&resolved, SyntaxNodeId(41)), Some(at(41)));
    assert_eq!(origin_for(&resolved, SyntaxNodeId(40)), None);
}

#[test]
fn a_name_use_is_typed_as_its_symbol() {
    let mut resolved = resolution();
    let mut typed = TypedProgram::new();
    let int = typed.intern_type(CheckedType::Builtin(BuiltinType::Int(IntWidth::DEFAULT)));
    typed.insert_typed_symbol(typed_symbol(11, 1, Some(int)));
    resolved.references.insert(ReferenceId(1), reference(ReferenceKind::Identifier, 40, Some(11)));
    resolved.references.insert(ReferenceId(2), reference(ReferenceKind::Identifier, 41, None));
    typed.insert_typed_reference(typed_reference(1));

    let expr = type_for_reference(&mut typed, &resolved, ReferenceId(1), None).unwrap();
    assert_eq!(expr.value_type, Some(int));
    assert_eq!(typed.typed_reference(ReferenceId(1)).unwrap().resolved_type, Some(int));

    let error = type_for_reference(&mut typed, &resolved, ReferenceId(2), Some(at(8))).unwrap_err();
    assert_eq!(error.message(), "resolved reference lost its target symbol");
    assert_eq!(error.diagnostic_location(), Some(&at(8)));
    let error = type_for_reference(&mut typed, &resolved, ReferenceId(9), None).unwrap_err();
    assert_eq!(error.message(), "resolved reference disappeared before typechecking");

    resolved.references.insert(ReferenceId(3), reference(ReferenceKind::Identifier, 42, Some(11)));
    let error = type_for_reference(&mut typed, &resolved, ReferenceId(3), None).unwrap_err();
    assert_eq!(error.kind(), TypecheckErrorKind::Internal);
    assert_eq!(error.message(), "typed reference table lost a resolved reference");
}

#[test]
fn generic_routines_are_not_plain_values() {
    let mut resolved = resolution();
    let mut typed = TypedProgram::new();
    let generic = routine_type(&mut typed, true);
    let plain = routine_type(&mut typed, false);
    resolved.symbols.insert(SymbolId(50), resolved_symbol("pick", SymbolKind::Routine, 1, None));
    typed.insert_typed_symbol(typed_symbol(50, 1, Some(generic)));
    typed.insert_typed_symbol(typed_symbol(51, 1, Some(plain)));
    resolved.references.insert(ReferenceId(1), reference(ReferenceKind::Identifier, 40, Some(50)));
    resolved.references.insert(ReferenceId(2), reference(ReferenceKind::FunctionCall, 41, Some(51)));
    typed.insert_typed_reference(typed_reference(1));
    let error = type_for_reference(&mut typed, &resolved, ReferenceId(1), None).unwrap_err();
    assert_eq!(error.kind(), TypecheckErrorKind::Unsupported);
    assert_eq!(
        error.message(),
        "generic routine 'pick' cannot be used as a plain routine value in V2 Milestone 1; call it directly instead"
    );
    let signature = routine_signature_for_reference(&typed, &resolved, ReferenceId(2), None).unwrap();
    assert!(signature.params.is_empty());
    let error = routine_signature_for_reference(&typed, &resolved, ReferenceId(7), None).unwrap_err();
    assert_eq!(error.message(), "call reference lost its resolved routine symbol");
}

#[test]
fn name_uses_record_recoverable_effects_and_list_in_order() {
    let mut typed = TypedProgram::new();
    typed.insert_typed_reference(typed_reference(4));
    typed.insert_typed_reference(typed_reference(2));
    let effect = RecoverableCallEffect {
        error_type: CheckedTypeId(0),
    };
    typed.record_reference_recoverable_effect(ReferenceId(4), effect).unwrap();
    assert_eq!(typed.typed_reference(ReferenceId(4)).unwrap().recoverable_effect, Some(effect));
    let error = typed.record_reference_recoverable_effect(ReferenceId(9), effect).unwrap_err();
    assert_eq!(error.kind(), TypecheckErrorKind::Internal);
    assert_eq!(
        error.message(),
        "typed reference disappeared while recording a recoverable call effect"
    );
    let listed: Vec<usize> = typed
        .all_typed_references()
        .iter()
        .map(|r| r.reference_id.0)
        .collect();
    assert_eq!(listed, vec![2, 4]);
    assert!(typed.set_reference_type(ReferenceId(2), CheckedTypeId(0)));
    assert!(!typed.set_reference_type(ReferenceId(3), CheckedTypeId(0)));
}
