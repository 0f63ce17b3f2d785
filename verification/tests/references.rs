use lib::errors::TypecheckErrorKind;
use lib::exprs::{ErrorCallMode, TypeContext};
use lib::ids::{ReferenceId, ScopeId, SourceUnitId, SymbolId, SyntaxNodeId, SyntaxOrigin};
use lib::model::{ActiveBorrow, TypedProgram, TypedReference, TypedSymbol};
use lib::references::{type_identifier_reference, type_qualified_identifier_reference};
use lib::resolution::{
    ReferenceKind, Resolution, ResolvedReference, ResolvedScope, ResolvedSymbol, SymbolKind,
};
use lib::sorted_map::SortedMap;
use lib::types::{BuiltinType, CheckedType, CheckedTypeId};
use lib::widths::IntWidth;

fn at(line: usize) -> SyntaxOrigin {
    SyntaxOrigin { file: None, line, column: 4, length: 3 }
}

/// Symbol `n` is used at node 50 (reference 0), `m` at node 51 (reference
/// 1) through a qualified path, and `ev` at node 52 (reference 2).
fn resolution() -> Resolution {
    let mut resolved = Resolution::new();
    resolved.scopes.insert(ScopeId(1), ResolvedScope { parent: None, routine: true });
    for (id, name) in [(10, "n"), (11, "m"), (12, "ev")] {
        resolved.symbols.insert(
            SymbolId(id),
            ResolvedSymbol {
                name: name.to_string(),
                kind: SymbolKind::ValueBinding,
                source_unit: SourceUnitId(0),
                scope: ScopeId(1),
                origin: None,
                mounted: false,
                is_mutable: false,
            },
        );
    }
    let uses = [
        (0, 50, ReferenceKind::Identifier, 10),
        (1, 51, ReferenceKind::QualifiedIdentifier, 11),
        (2, 52, ReferenceKind::Identifier, 12),
    ];
    for (reference, node, kind, symbol) in uses {
        resolved.references.insert(
            ReferenceId(reference),
            ResolvedReference {
                kind,
                syntax_id: Some(SyntaxNodeId(node)),
                source_unit: SourceUnitId(0),
                resolved: Some(SymbolId(symbol)),
            },
        );
        resolved.origins.insert(SyntaxNodeId(node), at(node));
    }
    resolved
}

fn symbol(id: usize, declared_type: Option<CheckedTypeId>) -> TypedSymbol {
    TypedSymbol {
        symbol_id: SymbolId(id),
        kind: SymbolKind::ValueBinding,
        scope_id: ScopeId(1),
        source_unit_id: SourceUnitId(0),
        declared_type,
        receiver_type: None,
        param_defaults: Vec::new(),
        generic_params: Vec::new(),
        generic_constraints: SortedMap::new(),
        is_mutable: false,
        is_mutex: false,
        is_mutex_guard: false,
        is_channel_sender_capture: false,
        channel_receiver_params: SortedMap::new(),
    }
}

fn context() -> TypeContext {
    TypeContext {
        source_unit_id: SourceUnitId(0),
        scope_id: ScopeId(1),
        routine_return_type: None,
        routine_error_type: None,
        error_call_mode: ErrorCallMode::Propagate,
        processor_task_call: None,
        allow_mutex_handle: false,
        repeating_loop_scope: None,
        inside_deferred_block: false,
        inside_error_deferred_block: false,
        field_projection_root: false,
    }
}

fn program() -> (TypedProgram, CheckedTypeId, CheckedTypeId) {
    let mut typed = TypedProgram::new();
    let int = typed.intern_type(CheckedType::Builtin(BuiltinType::Int(IntWidth::DEFAULT)));
    let eventual = typed.intern_type(CheckedType::Eventual { value_type: int, error_type: None });
    typed.insert_typed_symbol(symbol(10, Some(int)));
    typed.insert_typed_symbol(symbol(11, Some(int)));
    typed.insert_typed_symbol(symbol(12, Some(eventual)));
    for (reference, kind) in [(0, ReferenceKind::Identifier), (1, ReferenceKind::QualifiedIdentifier), (2, ReferenceKind::Identifier)] {
        typed.insert_typed_reference(TypedReference {
            reference_id: ReferenceId(reference),
            kind,
            source_unit_id: SourceUnitId(0),
            resolved_type: None,
            recoverable_effect: None,
        });
    }
    (typed, int, eventual)
}

#[test]
fn a_usable_binding_is_typed_and_its_use_recorded() {
    let resolved = resolution();
    let (mut typed, int, _) = program();
    let expr = type_identifier_reference(&mut typed, &resolved, context(), "n", Some(SyntaxNodeId(50)))
        .unwrap();
    assert_eq!(expr.value_type, Some(int));
    assert_eq!(typed.typed_node(SyntaxNodeId(50)).unwrap().inferred_type, Some(int));
    assert_eq!(typed.typed_reference(ReferenceId(0)).unwrap().resolved_type, Some(int));
}

#[test]
fn an_identifier_needs_a_syntax_node_and_a_recorded_use() {
    let resolved = resolution();
    let (mut typed, _, _) = program();
    let error = type_identifier_reference(&mut typed, &resolved, context(), "n", None).unwrap_err();
    assert_eq!(error.message(), "identifier 'n' does not retain a syntax id");
    let error = type_identifier_reference(&mut typed, &resolved, context(), "zz", Some(SyntaxNodeId(77)))
        .unwrap_err();
    assert_eq!(error.message(), "reference 'zz' is missing from resolver output");
}

#[test]
fn a_moved_binding_cannot_be_used() {
    let resolved = resolution();
    let (mut typed, _, _) = program();
    typed.mark_binding_moved(SymbolId(10), at(3));
    let error = type_identifier_reference(&mut typed, &resolved, context(), "n", Some(SyntaxNodeId(50)))
        .unwrap_err();
    assert_eq!(error.kind(), TypecheckErrorKind::Ownership);
    assert_eq!(error.message(), "use of moved heap-owned binding 'n'");
    assert_eq!(error.diagnostic_location(), Some(&at(50)));
    assert_eq!(error.related_origins(), &vec![(at(3), "ownership moved here".to_string())]);
    assert!(typed.typed_node(SyntaxNodeId(50)).is_none());
}

#[test]
fn a_consumed_eventual_says_how_it_was_consumed() {
    let resolved = resolution();
    let (mut typed, _, _) = program();
    typed.mark_eventual_awaited(SymbolId(12), at(4));
    let error = type_identifier_reference(&mut typed, &resolved, context(), "ev", Some(SyntaxNodeId(52)))
        .unwrap_err();
    assert_eq!(error.message(), "use of consumed eventual binding 'ev'");
    assert_eq!(error.related_origins(), &vec![(at(4), "eventual consumed by await here".to_string())]);
}

#[test]
fn an_eventual_is_out_of_reach_of_an_error_deferred_block() {
    let resolved = resolution();
    let (mut typed, _, _) = program();
    let mut inside = context();
    inside.inside_error_deferred_block = true;
    let error = type_identifier_reference(&mut typed, &resolved, inside, "ev", Some(SyntaxNodeId(52)))
        .unwrap_err();
    assert_eq!(error.kind(), TypecheckErrorKind::Unsupported);
    assert_eq!(
        error.message(),
        "eventual binding 'ev' cannot be accessed inside edf in V3; await or transfer it in ordinary control flow"
    );
}

#[test]
fn a_mutex_handle_is_no_whole_value() {
    let resolved = resolution();
    let (mut typed, int, _) = program();
    let mut lock = symbol(10, Some(int));
    lock.is_mutex = true;
    typed.insert_typed_symbol(lock);
    let error = type_identifier_reference(&mut typed, &resolved, context(), "n", Some(SyntaxNodeId(50)))
        .unwrap_err();
    assert_eq!(
        error.message(),
        "mutex parameter 'n' cannot be used as an unguarded whole value; access fields after 'n.lock()' or pass the handle to another [mux] parameter"
    );
    let mut forwarding = context();
    forwarding.allow_mutex_handle = true;
    assert!(type_identifier_reference(&mut typed, &resolved, forwarding, "n", Some(SyntaxNodeId(50))).is_ok());
}

#[test]
fn a_borrowed_owner_and_a_returned_borrow_are_out_of_reach() {
    let resolved = resolution();
    let (mut typed, _, _) = program();
    typed.register_borrow(ActiveBorrow {
        owner: SymbolId(10),
        binding: SymbolId(20),
        scope: ScopeId(1),
        mutable: false,
        origin: at(6),
    });
    let error = type_identifier_reference(&mut typed, &resolved, context(), "n", Some(SyntaxNodeId(50)))
        .unwrap_err();
    assert_eq!(error.kind(), TypecheckErrorKind::OwnerBorrowed);
    assert_eq!(error.message(), "owner 'n' is inaccessible while borrowed");
    assert_eq!(error.related_origins(), &vec![(at(6), "borrow created here".to_string())]);
}

#[test]
fn a_qualified_identifier_is_typed_by_its_path() {
    let resolved = resolution();
    let (mut typed, int, _) = program();
    let expr = type_qualified_identifier_reference(
        &mut typed,
        &resolved,
        context(),
        "pkg::m",
        Some(SyntaxNodeId(51)),
    )
    .unwrap();
    assert_eq!(expr.value_type, Some(int));
    assert_eq!(typed.typed_node(SyntaxNodeId(51)).unwrap().inferred_type, Some(int));
    let error =
        type_qualified_identifier_reference(&mut typed, &resolved, context(), "pkg::m", None).unwrap_err();
    assert_eq!(error.message(), "qualified identifier 'pkg::m' does not retain a syntax id");
}
