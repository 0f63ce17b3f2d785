use lib::deferred::register_deferred_outer_binding_uses;
use lib::errors::TypecheckErrorKind;
use lib::ids::{ReferenceId, ScopeId, SourceUnitId, SymbolId, SyntaxNodeId, SyntaxOrigin};
use lib::model::TypedProgram;
use lib::resolution::{
    ReferenceKind, Resolution, ResolvedReference, ResolvedScope, ResolvedSymbol, SymbolKind,
};
use lib::scope_rules::{whole_binding_assignment_symbol, AssignTarget};

fn at(line: usize) -> SyntaxOrigin {
    SyntaxOrigin { file: None, line, column: 3, length: 2 }
}

/// Scope 1 is a routine body and scope 2 a deferred block in it. Symbol 10
/// is `log`, declared in the routine; symbol 11 is `tmp`, declared inside
/// the block. Nodes 40 and 41 use `log`, node 42 uses `tmp`, node 43 is an
/// unresolved use and node 44 a use without a known position.
fn resolution() -> Resolution {
    let mut resolved = Resolution::new();
    resolved.scopes.insert(ScopeId(1), ResolvedScope { parent: None, routine: true });
    resolved.scopes.insert(ScopeId(2), ResolvedScope { parent: Some(ScopeId(1)), routine: false });
    for (id, name, scope) in [(10, "log", 1), (11, "tmp", 2)] {
        resolved.symbols.insert(
            SymbolId(id),
            ResolvedSymbol {
                name: name.to_string(),
                kind: SymbolKind::ValueBinding,
                source_unit: SourceUnitId(0),
                scope: ScopeId(scope),
                origin: None,
                mounted: false,
                is_mutable: false,
            },
        );
    }
    let uses = [(0, 40, Some(10)), (1, 41, Some(10)), (2, 42, Some(11)), (3, 43, None), (4, 44, Some(10))];
    for (reference, node, symbol) in uses {
        resolved.references.insert(
            ReferenceId(reference),
            ResolvedReference {
                kind: ReferenceKind::Identifier,
                syntax_id: Some(SyntaxNodeId(node)),
                source_unit: SourceUnitId(0),
                resolved: symbol.map(SymbolId),
            },
        );
    }
    for (node, line) in [(40, 5), (41, 6), (42, 7), (43, 8)] {
        resolved.origins.insert(SyntaxNodeId(node), at(line));
    }
    resolved
}

#[test]
fn a_deferred_block_registers_its_reads_of_outer_bindings() {
    let resolved = resolution();
    let mut typed = TypedProgram::new();
    let uses = vec![SyntaxNodeId(40), SyntaxNodeId(42), SyntaxNodeId(41), SyntaxNodeId(40)];
    register_deferred_outer_binding_uses(&mut typed, &resolved, ScopeId(1), &uses).unwrap();
    let first = typed.first_deferred_binding_use(SymbolId(10)).unwrap();
    assert_eq!(first.scope, ScopeId(1));
    assert_eq!(first.origin, at(5));
    assert!(typed.first_deferred_binding_use(SymbolId(11)).is_none());
}

#[test]
fn a_deferred_read_must_stay_resolved() {
    let resolved = resolution();
    let mut typed = TypedProgram::new();
    let error = register_deferred_outer_binding_uses(
        &mut typed,
        &resolved,
        ScopeId(1),
        &vec![SyntaxNodeId(40), SyntaxNodeId(43)],
    )
    .unwrap_err();
    assert_eq!(error.kind(), TypecheckErrorKind::Internal);
    assert_eq!(error.message(), "dfr/edf identifier use remained unresolved after successful typing");
    assert_eq!(error.diagnostic_location(), Some(&at(8)));
    assert!(typed.first_deferred_binding_use(SymbolId(10)).is_some());
    let error = register_deferred_outer_binding_uses(&mut typed, &resolved, ScopeId(1), &vec![SyntaxNodeId(90)])
        .unwrap_err();
    assert_eq!(error.message(), "dfr/edf identifier use lost its resolved reference");
    let error = register_deferred_outer_binding_uses(&mut typed, &resolved, ScopeId(1), &vec![SyntaxNodeId(44)])
        .unwrap_err();
    assert_eq!(error.message(), "dfr/edf identifier use lost its syntax origin");
}

#[test]
fn an_assignment_overwrites_the_binding_it_names() {
    let resolved = resolution();
    assert_eq!(
        whole_binding_assignment_symbol(&resolved, &AssignTarget::Identifier(SyntaxNodeId(42))),
        Some(SymbolId(11))
    );
    assert_eq!(whole_binding_assignment_symbol(&resolved, &AssignTarget::Qualified(None)), None);
    assert_eq!(
        whole_binding_assignment_symbol(&resolved, &AssignTarget::Qualified(Some(SyntaxNodeId(42)))),
        None
    );
    assert_eq!(whole_binding_assignment_symbol(&resolved, &AssignTarget::Other), None);
}
