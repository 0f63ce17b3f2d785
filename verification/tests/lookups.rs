use lib::ids::{ReferenceId, ScopeId, SourceUnitId, SymbolId, SyntaxNodeId, SyntaxOrigin};
use lib::resolution::{
    binding_symbol, parameter_symbol, reference_symbol, ReferenceKind, Resolution,
    ResolvedReference, ResolvedScope, ResolvedSymbol, SymbolKind,
};

fn at(line: usize) -> SyntaxOrigin {
    SyntaxOrigin { file: None, line, column: 1, length: 3 }
}

fn declared(name: &str, kind: SymbolKind, unit: usize, scope: usize, origin: Option<SyntaxOrigin>) -> ResolvedSymbol {
    ResolvedSymbol {
        name: name.to_string(),
        kind,
        source_unit: SourceUnitId(unit),
        scope: ScopeId(scope),
        origin,
        mounted: false,
        is_mutable: false,
    }
}

/// Scope 1 is a routine signature, 2 its body and 3 a block in it; scope 4
/// is another routine's body.
fn resolution() -> Resolution {
    let mut resolved = Resolution::new();
    resolved.scopes.insert(ScopeId(1), ResolvedScope { parent: None, routine: true });
    resolved.scopes.insert(ScopeId(2), ResolvedScope { parent: Some(ScopeId(1)), routine: false });
    resolved.scopes.insert(ScopeId(3), ResolvedScope { parent: Some(ScopeId(2)), routine: false });
    resolved.scopes.insert(ScopeId(4), ResolvedScope { parent: None, routine: true });
    resolved.symbols.insert(SymbolId(1), declared("n", SymbolKind::Parameter, 0, 1, None));
    resolved.symbols.insert(SymbolId(2), declared("n", SymbolKind::Parameter, 1, 1, None));
    resolved.symbols.insert(SymbolId(3), declared("x", SymbolKind::ValueBinding, 0, 2, Some(at(5))));
    resolved.symbols.insert(SymbolId(4), declared("x", SymbolKind::ValueBinding, 0, 3, Some(at(9))));
    resolved.symbols.insert(SymbolId(5), declared("y", SymbolKind::LabelBinding, 0, 3, Some(at(11))));
    resolved.symbols.insert(SymbolId(6), declared("y", SymbolKind::ValueBinding, 0, 4, Some(at(12))));
    resolved.symbols.insert(SymbolId(7), declared("y", SymbolKind::Parameter, 0, 2, None));
    resolved.origins.insert(SyntaxNodeId(30), at(9));
    resolved.origins.insert(SyntaxNodeId(31), at(40));
    resolved.references.insert(
        ReferenceId(0),
        ResolvedReference {
            kind: ReferenceKind::Identifier,
            syntax_id: Some(SyntaxNodeId(30)),
            source_unit: SourceUnitId(0),
            resolved: Some(SymbolId(4)),
        },
    );
    resolved
}

#[test]
fn a_parameter_is_found_by_unit_scope_and_name() {
    let resolved = resolution();
    assert_eq!(parameter_symbol(&resolved, SourceUnitId(0), ScopeId(1), "n"), Some(SymbolId(1)));
    assert_eq!(parameter_symbol(&resolved, SourceUnitId(1), ScopeId(1), "n"), Some(SymbolId(2)));
    assert_eq!(parameter_symbol(&resolved, SourceUnitId(0), ScopeId(2), "n"), None);
    assert_eq!(parameter_symbol(&resolved, SourceUnitId(0), ScopeId(2), "x"), None);
}

#[test]
fn a_binding_is_found_by_its_declaration_or_as_the_only_candidate() {
    let resolved = resolution();
    assert_eq!(
        binding_symbol(&resolved, SourceUnitId(0), ScopeId(2), "x", Some(SyntaxNodeId(30))),
        Some(SymbolId(4))
    );
    assert_eq!(binding_symbol(&resolved, SourceUnitId(0), ScopeId(2), "x", None), None);
    assert_eq!(
        binding_symbol(&resolved, SourceUnitId(0), ScopeId(2), "x", Some(SyntaxNodeId(31))),
        None
    );
    assert_eq!(binding_symbol(&resolved, SourceUnitId(0), ScopeId(2), "y", None), Some(SymbolId(5)));
    assert_eq!(binding_symbol(&resolved, SourceUnitId(0), ScopeId(4), "y", None), Some(SymbolId(6)));
    assert_eq!(binding_symbol(&resolved, SourceUnitId(1), ScopeId(2), "y", None), None);
}

#[test]
fn an_identifier_use_names_the_symbol_it_resolved_to() {
    let resolved = resolution();
    assert_eq!(reference_symbol(&resolved, SyntaxNodeId(30)), Some(SymbolId(4)));
    assert_eq!(reference_symbol(&resolved, SyntaxNodeId(31)), None);
}
