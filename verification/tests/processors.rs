use lib::errors::TypecheckErrorKind;
use lib::ids::{ReferenceId, ScopeId, SourceUnitId, SymbolId, SyntaxNodeId, SyntaxOrigin};
use lib::model::{TypedProgram, TypedSymbol};
use lib::processors::{
    processor_call_syntax_id, reject_direct_spawn_channel_receiver,
    reject_sender_capture_receive, reject_unsupported_spawn_task_surface,
    require_direct_channel_binding, require_named_processor_call_target, ChannelOperand, TaskCall,
};
use lib::resolution::{
    ReferenceKind, Resolution, ResolvedReference, ResolvedScope, ResolvedSymbol, SymbolKind,
};
use lib::sorted_map::SortedMap;

fn at(line: usize) -> SyntaxOrigin {
    SyntaxOrigin { file: None, line, column: 1, length: 5 }
}

/// Scope 1 is the package, scopes 2 and 4 routine bodies in it, scope 3 a
/// block of routine 2. Symbol 20 is routine `work`, 21 a binding `job`
/// holding a routine value, 22 the channel `ch` local to routine 2, 23 the
/// global channel `all`, 24 routine `drain`, 25 the sender capture `out`.
fn resolution() -> Resolution {
    let mut resolved = Resolution::new();
    resolved.scopes.insert(ScopeId(1), ResolvedScope { parent: None, routine: false });
    resolved.scopes.insert(ScopeId(2), ResolvedScope { parent: Some(ScopeId(1)), routine: true });
    resolved.scopes.insert(ScopeId(3), ResolvedScope { parent: Some(ScopeId(2)), routine: false });
    resolved.scopes.insert(ScopeId(4), ResolvedScope { parent: Some(ScopeId(1)), routine: true });
    let symbols = [
        (20, "work", SymbolKind::Routine, 1),
        (21, "job", SymbolKind::ValueBinding, 2),
        (22, "ch", SymbolKind::ValueBinding, 3),
        (23, "all", SymbolKind::ValueBinding, 1),
        (24, "drain", SymbolKind::Routine, 1),
        (25, "out", SymbolKind::Capture, 2),
    ];
    for (id, name, kind, scope) in symbols {
        resolved.symbols.insert(
            SymbolId(id),
            ResolvedSymbol {
                name: name.to_string(),
                kind,
                source_unit: SourceUnitId(0),
                scope: ScopeId(scope),
                origin: None,
                mounted: false,
                is_mutable: false,
            },
        );
    }
    let uses = [
        (0, 70, ReferenceKind::FunctionCall, 20),
        (1, 71, ReferenceKind::FunctionCall, 21),
        (2, 72, ReferenceKind::Identifier, 22),
        (3, 73, ReferenceKind::Identifier, 23),
        (4, 74, ReferenceKind::FunctionCall, 24),
        (5, 75, ReferenceKind::Identifier, 25),
    ];
    for (reference, node, kind, symbol) in uses {
        resolved.references.insert(
            ReferenceId(reference),
            ResolvedReference {
                kind,
                syntax_id: Some(SyntaxNodeId(node)),
                source_unit: SourceUnitId(0),
                resolved: Some(SymbolId(symbol)),
            },
        );
    }
    resolved
}

fn symbol(id: usize) -> TypedSymbol {
    TypedSymbol {
        symbol_id: SymbolId(id),
        kind: SymbolKind::ValueBinding,
        scope_id: ScopeId(2),
        source_unit_id: SourceUnitId(0),
        declared_type: None,
        receiver_type: None,
        param_defaults: Vec::new(),
        generic_params: Vec::new(),
        generic_constraints: SortedMap::new(),
        is_mutable: false,
        is_mutex: false,
        is_mutex_guard: false,
        is_channel_sender_capture: false,
        channel_receiver_params: SortedMap::new(),
    }
}

fn call(node: usize, name: &str) -> TaskCall {
    TaskCall::Function { syntax_id: Some(SyntaxNodeId(node)), name: name.to_string(), plain: true }
}

#[test]
fn a_task_may_be_a_routine_call_or_a_bare_anonymous_routine() {
    assert!(reject_unsupported_spawn_task_surface(&call(70, "work"), None).is_ok());
    assert!(reject_unsupported_spawn_task_surface(
        &TaskCall::Qualified { syntax_id: None, path: "lib::work".to_string() },
        None
    )
    .is_ok());
    assert!(reject_unsupported_spawn_task_surface(&TaskCall::Anonymous { has_params: false }, None)
        .is_ok());
    let error =
        reject_unsupported_spawn_task_surface(&TaskCall::Anonymous { has_params: true }, Some(at(3)))
            .unwrap_err();
    assert_eq!(error.kind(), TypecheckErrorKind::Unsupported);
    assert_eq!(error.message(), "a directly spawned anonymous routine cannot declare call parameters");
    assert_eq!(error.diagnostic_location(), Some(&at(3)));
    let error = reject_unsupported_spawn_task_surface(
        &TaskCall::Method { syntax_id: None, method: "run".to_string() },
        None,
    )
    .unwrap_err();
    assert_eq!(
        error.message(),
        "spawn requires a direct named routine call or a zero-parameter anonymous routine in V3; method calls and other expressions are not supported"
    );
    assert!(reject_unsupported_spawn_task_surface(
        &TaskCall::Function { syntax_id: None, name: "f".to_string(), plain: false },
        None
    )
    .is_err());
}

#[test]
fn the_processor_call_is_the_direct_routine_call() {
    assert_eq!(processor_call_syntax_id(&call(70, "work")), Some(SyntaxNodeId(70)));
    assert_eq!(
        processor_call_syntax_id(&TaskCall::Qualified {
            syntax_id: Some(SyntaxNodeId(9)),
            path: "a::b".to_string()
        }),
        Some(SyntaxNodeId(9))
    );
    assert_eq!(processor_call_syntax_id(&TaskCall::Other), None);
}

#[test]
fn a_task_must_call_a_named_routine() {
    let resolved = resolution();
    assert!(require_named_processor_call_target(&resolved, &call(70, "work"), None, "spawn").is_ok());
    let error =
        require_named_processor_call_target(&resolved, &call(71, "job"), Some(at(4)), "async call")
            .unwrap_err();
    assert_eq!(
        error.message(),
        "async call requires a direct call to a named routine declaration in V3; indirect routine values, stored anonymous routines, and routine parameters are not supported"
    );
    assert!(require_named_processor_call_target(&resolved, &call(99, "lost"), None, "spawn").is_ok());
}

#[test]
fn a_receiving_routine_cannot_be_spawned() {
    let resolved = resolution();
    let mut typed = TypedProgram::new();
    let mut drain = symbol(24);
    drain.channel_receiver_params.insert(0, ());
    typed.insert_typed_symbol(drain);
    typed.insert_typed_symbol(symbol(20));
    let error =
        reject_direct_spawn_channel_receiver(&typed, &resolved, &call(74, "drain"), Some(at(6)))
            .unwrap_err();
    assert_eq!(
        error.message(),
        "routine 'drain' receives from a channel and cannot be spawned directly; keep the single receiver in the owning routine and spawn sender-only producers"
    );
    assert!(reject_direct_spawn_channel_receiver(&typed, &resolved, &call(70, "work"), None).is_ok());
    typed.record_method_call_target(SyntaxNodeId(80), SymbolId(24));
    let error = reject_direct_spawn_channel_receiver(
        &typed,
        &resolved,
        &TaskCall::Method { syntax_id: Some(SyntaxNodeId(80)), method: "pump".to_string() },
        None,
    )
    .unwrap_err();
    assert!(error.message().starts_with("routine 'pump' receives from a channel"));
}

fn channel(node: usize, name: &str) -> ChannelOperand {
    ChannelOperand::Identifier { syntax_id: SyntaxNodeId(node), name: name.to_string() }
}

#[test]
fn a_sender_capture_cannot_receive() {
    let resolved = resolution();
    let mut typed = TypedProgram::new();
    let mut out = symbol(25);
    out.is_channel_sender_capture = true;
    typed.insert_typed_symbol(out);
    typed.insert_typed_symbol(symbol(22));
    let error =
        reject_sender_capture_receive(&typed, &resolved, &channel(75, "out"), None).unwrap_err();
    assert_eq!(
        error.message(),
        "captured endpoint 'out[tx]' is sender-only; keep 'out[rx]' in the owning receiving routine"
    );
    assert!(reject_sender_capture_receive(&typed, &resolved, &channel(72, "ch"), None).is_ok());
    assert!(reject_sender_capture_receive(&typed, &resolved, &ChannelOperand::Other, None).is_ok());
}

#[test]
fn a_channel_endpoint_needs_a_local_binding_of_the_routine() {
    let resolved = resolution();
    assert!(require_direct_channel_binding(&resolved, ScopeId(3), &channel(72, "ch"), None).is_ok());
    let error = require_direct_channel_binding(&resolved, ScopeId(4), &channel(72, "ch"), Some(at(8)))
        .unwrap_err();
    assert_eq!(
        error.message(),
        "channel endpoint access requires a direct binding owned by the current routine in V3; outer-routine and global channel values are not supported"
    );
    assert_eq!(error.diagnostic_location(), Some(&at(8)));
    assert!(require_direct_channel_binding(&resolved, ScopeId(3), &channel(73, "all"), None).is_err());
    let error =
        require_direct_channel_binding(&resolved, ScopeId(3), &channel(98, "gone"), None).unwrap_err();
    assert_eq!(
        error.message(),
        "channel endpoint access requires a resolved routine-local binding in V3"
    );
    let error =
        require_direct_channel_binding(&resolved, ScopeId(3), &ChannelOperand::Other, None).unwrap_err();
    assert_eq!(
        error.message(),
        "channel endpoint access requires a direct local, parameter, or capture binding in V3; projected fields and container elements are not supported"
    );
}
