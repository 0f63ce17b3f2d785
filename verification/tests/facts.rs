use lib::resolution::SymbolKind;
use lib::ids::{IntrinsicId, ScopeId, SourceUnitId, SymbolId, SyntaxNodeId};
use lib::model::{
    RecordFieldLayout, RecoverableCallEffect, TypedConformance, TypedConformanceClaim, TypedProgram,
    TypedSymbol,
};
use lib::shapes::{
    type_contains_borrowed, type_contains_fin, type_contains_shared_pointer,
    type_embeds_full_channel, type_has_nested_fin,
};
use lib::sorted_map::SortedMap;
use lib::types::{BuiltinType, CheckedType, CheckedTypeId, DeclaredTypeKind, RoutineType};
use lib::widths::IntWidth;

fn symbol(id: usize, declared_type: Option<CheckedTypeId>) -> TypedSymbol {
    TypedSymbol {
        symbol_id: SymbolId(id),
        kind: SymbolKind::ValueBinding,
        scope_id: ScopeId(0),
        source_unit_id: SourceUnitId(0),
        declared_type,
        receiver_type: None,
        param_defaults: Vec::new(),
        generic_params: Vec::new(),
        generic_constraints: SortedMap::new(),
        is_mutable: false,
        is_mutex: false,
        is_mutex_guard: false,
        is_channel_sender_capture: false,
        channel_receiver_params: SortedMap::new(),
    }
}

fn named(typed: &mut TypedProgram, id: usize, name: &str) -> CheckedTypeId {
    typed.intern_type(CheckedType::Declared {
        symbol: SymbolId(id),
        name: name.to_string(),
        kind: DeclaredTypeKind::Type,
        args: Vec::new(),
    })
}

#[test]
fn capability_claims_and_bounds_are_recorded_per_symbol() {
    let mut typed = TypedProgram::new();
    typed.record_capability_claim(SymbolId(1), "copy".to_string());
    typed.record_capability_claim(SymbolId(1), "send".to_string());
    typed.record_capability_claim(SymbolId(1), "copy".to_string());
    let claims = typed.capability_claims(SymbolId(1)).unwrap();
    assert_eq!(claims.len(), 2);
    assert!(claims.contains_key(&"send".to_string()));
    assert!(typed.capability_claims(SymbolId(2)).is_none());

    typed.record_generic_capability_constraint(SymbolId(7), "ord".to_string());
    assert!(typed
        .generic_capability_constraints(SymbolId(7))
        .unwrap()
        .contains_key(&"ord".to_string()));
    assert!(typed.generic_capability_constraints(SymbolId(1)).is_none());
}

#[test]
fn method_targets_and_constraint_sites_are_recorded_per_call() {
    let mut typed = TypedProgram::new();
    typed.record_method_call_target(SyntaxNodeId(9), SymbolId(3));
    typed.record_method_call_target(SyntaxNodeId(2), SymbolId(4));
    typed.record_method_call_target(SyntaxNodeId(9), SymbolId(5));
    assert_eq!(typed.method_call_target(SyntaxNodeId(9)), Some(SymbolId(5)));
    assert_eq!(typed.method_call_target(SyntaxNodeId(1)), None);
    assert_eq!(
        typed.method_call_targets(),
        vec![(SyntaxNodeId(2), SymbolId(4)), (SyntaxNodeId(9), SymbolId(5))]
    );

    assert!(!typed.is_constraint_call_site(SyntaxNodeId(2)));
    typed.record_constraint_call_site(SyntaxNodeId(2));
    assert!(typed.is_constraint_call_site(SyntaxNodeId(2)));
}

#[test]
fn fin_claims_resolve_through_shells_and_declarations() {
    let mut typed = TypedProgram::new();
    let int_type = typed.intern_type(CheckedType::Builtin(BuiltinType::Int(IntWidth::DEFAULT)));
    let file = named(&mut typed, 1, "File");
    let record = typed.intern_type(CheckedType::Record {
        fields: SortedMap::new(),
    });
    typed.insert_typed_symbol(symbol(1, Some(record)));
    typed.record_fin_type(record);
    let owned = typed.intern_type(CheckedType::Owned { inner: file });
    let borrowed = typed.intern_type(CheckedType::Borrowed {
        inner: owned,
        mutable: false,
    });

    assert!(typed.type_claims_fin(record));
    assert!(!typed.type_claims_fin(file));
    assert!(typed.type_resolves_to_fin(record));
    assert!(typed.type_resolves_to_fin(file));
    assert!(typed.type_resolves_to_fin(borrowed));
    assert!(!typed.type_resolves_to_fin(int_type));
    assert_eq!(typed.typed_symbol(SymbolId(1)).unwrap().declared_type, Some(record));
    assert!(typed.typed_symbol(SymbolId(2)).is_none());
}

#[test]
fn shell_overrides_are_recorded() {
    let mut typed = TypedProgram::new();
    typed.record_apparent_type_override(CheckedTypeId(3), CheckedTypeId(1));
    assert_eq!(typed.apparent_type_override(CheckedTypeId(3)), Some(CheckedTypeId(1)));
    assert_eq!(typed.apparent_type_override(CheckedTypeId(1)), None);
}

#[test]
fn full_channels_are_found_only_inside_other_types() {
    let mut typed = TypedProgram::new();
    let int_type = typed.intern_type(CheckedType::Builtin(BuiltinType::Int(IntWidth::DEFAULT)));
    let channel = typed.intern_type(CheckedType::Channel {
        element_type: int_type,
    });
    let sender = typed.intern_type(CheckedType::ChannelSender {
        element_type: int_type,
    });
    let vector = typed.intern_type(CheckedType::Vector {
        element_type: channel,
    });
    let senders = typed.intern_type(CheckedType::Vector {
        element_type: sender,
    });
    let alias = named(&mut typed, 2, "Chan");
    typed.insert_typed_symbol(symbol(2, Some(channel)));

    assert!(!type_embeds_full_channel(&typed, channel));
    assert!(!type_embeds_full_channel(&typed, alias));
    assert!(type_embeds_full_channel(&typed, vector));
    assert!(!type_embeds_full_channel(&typed, senders));
}

#[test]
fn shared_pointers_and_borrows_are_found_in_parts() {
    let mut typed = TypedProgram::new();
    let int_type = typed.intern_type(CheckedType::Builtin(BuiltinType::Int(IntWidth::DEFAULT)));
    let local_shared = typed.intern_type(CheckedType::Pointer {
        target: int_type,
        shared: true,
        weak: false,
        sync: false,
        raw: false,
        mutable: false,
    });
    let sync_shared = typed.intern_type(CheckedType::Pointer {
        target: int_type,
        shared: true,
        weak: false,
        sync: true,
        raw: false,
        mutable: false,
    });
    let borrowed = typed.intern_type(CheckedType::Borrowed {
        inner: int_type,
        mutable: false,
    });
    let mut fields = SortedMap::new();
    fields.insert("data".to_string(), local_shared);
    fields.insert("view".to_string(), borrowed);
    let record = typed.intern_type(CheckedType::Record { fields });

    assert!(type_contains_shared_pointer(&typed, local_shared));
    assert!(!type_contains_shared_pointer(&typed, sync_shared));
    assert!(type_contains_shared_pointer(&typed, record));
    assert!(type_contains_borrowed(&typed, record));
    assert!(!type_contains_borrowed(&typed, local_shared));
    assert!(!type_contains_borrowed(&typed, int_type));
}

#[test]
fn a_recursive_declaration_is_walked_once() {
    let mut typed = TypedProgram::new();
    let node = named(&mut typed, 4, "Node");
    let list = typed.intern_type(CheckedType::Vector { element_type: node });
    typed.insert_typed_symbol(symbol(4, Some(list)));
    assert!(!type_contains_borrowed(&typed, node));
    assert!(!type_contains_fin(&typed, node));
}

#[test]
fn nested_fin_values_are_found_where_no_finalizer_reaches() {
    let mut typed = TypedProgram::new();
    let handle = named(&mut typed, 1, "Handle");
    let handle_record = typed.intern_type(CheckedType::Record {
        fields: SortedMap::new(),
    });
    typed.insert_typed_symbol(symbol(1, Some(handle_record)));
    typed.record_fin_type(handle_record);

    let direct = typed.intern_type(CheckedType::Vector {
        element_type: handle,
    });
    let optional = typed.intern_type(CheckedType::Optional { inner: handle });
    let deeper = typed.intern_type(CheckedType::Vector {
        element_type: optional,
    });
    let mut fields = SortedMap::new();
    fields.insert("handle".to_string(), handle);
    let holder = typed.intern_type(CheckedType::Record { fields });

    assert!(type_contains_fin(&typed, handle));
    assert!(type_contains_fin(&typed, deeper));
    assert!(!type_has_nested_fin(&typed, handle));
    assert!(!type_has_nested_fin(&typed, direct));
    assert!(type_has_nested_fin(&typed, deeper));
    assert!(!type_has_nested_fin(&typed, holder));
}

#[test]
fn node_facts_accumulate_per_syntax_node() {
    let mut typed = TypedProgram::new();
    let int_type = typed.intern_type(CheckedType::Builtin(BuiltinType::Int(IntWidth::DEFAULT)));
    assert!(typed.typed_node(SyntaxNodeId(4)).is_none());
    typed
        .record_node_type(SyntaxNodeId(4), SourceUnitId(1), int_type)
        .unwrap();
    typed
        .record_node_recoverable_effect(
            SyntaxNodeId(4),
            SourceUnitId(2),
            RecoverableCallEffect {
                error_type: int_type,
            },
        )
        .unwrap();
    typed
        .record_node_intrinsic(SyntaxNodeId(5), SourceUnitId(2), IntrinsicId(3))
        .unwrap();
    let node = typed.typed_node(SyntaxNodeId(4)).unwrap();
    assert_eq!(node.source_unit_id, SourceUnitId(1));
    assert_eq!(node.inferred_type, Some(int_type));
    assert_eq!(node.recoverable_effect.unwrap().error_type, int_type);
    assert_eq!(node.intrinsic_id, None);
    let other = typed.typed_node(SyntaxNodeId(5)).unwrap();
    assert_eq!(other.intrinsic_id, Some(IntrinsicId(3)));
    assert_eq!(other.inferred_type, None);
}

#[test]
fn conformances_layouts_and_signatures_are_recorded() {
    let mut typed = TypedProgram::new();
    let int_type = typed.intern_type(CheckedType::Builtin(BuiltinType::Int(IntWidth::DEFAULT)));
    let conformance = TypedConformance {
        type_symbol_id: SymbolId(2),
        standard_symbol_ids: vec![SymbolId(8)],
        claims: vec![TypedConformanceClaim {
            standard_symbol_id: SymbolId(8),
            type_args: vec![int_type],
        }],
    };
    typed.record_typed_conformance(conformance.clone());
    assert_eq!(typed.typed_conformance(SymbolId(2)), Some(&conformance));
    assert!(typed.typed_conformance(SymbolId(8)).is_none());

    let layout = vec![
        RecordFieldLayout {
            name: "y".to_string(),
            type_id: int_type,
            default: None,
        },
        RecordFieldLayout {
            name: "x".to_string(),
            type_id: int_type,
            default: Some(SyntaxNodeId(12)),
        },
    ];
    typed.set_record_layout(CheckedTypeId(6), layout.clone());
    assert_eq!(typed.record_layout(CheckedTypeId(6)), Some(layout.as_slice()));
    assert!(typed.record_layout(CheckedTypeId(7)).is_none());

    typed.record_call_signature(
        SyntaxNodeId(3),
        RoutineType {
            generic_params: Vec::new(),
            generic_constraints: SortedMap::new(),
            param_names: vec!["n".to_string()],
            param_defaults: vec![None],
            variadic_index: None,
            mutex_params: SortedMap::new(),
            params: vec![int_type],
            return_type: None,
            error_type: None,
            env_lifetime: false,
        },
    );
    assert_eq!(typed.call_signature(SyntaxNodeId(3)).unwrap().params, vec![int_type]);
    assert!(typed.call_signature(SyntaxNodeId(4)).is_none());
}

#[test]
fn an_instantiation_in_progress_is_not_begun_twice() {
    let mut typed = TypedProgram::new();
    assert!(typed.begin_instantiation(CheckedTypeId(2)));
    assert!(!typed.begin_instantiation(CheckedTypeId(2)));
    typed.end_instantiation(CheckedTypeId(2));
    assert!(typed.begin_instantiation(CheckedTypeId(2)));
}

#[test]
fn fin_claims_resolve_through_any_number_of_shells() {
    let mut typed = TypedProgram::new();
    let int_type = typed.intern_type(CheckedType::Builtin(BuiltinType::Int(IntWidth::DEFAULT)));
    typed.record_fin_type(int_type);
    let mut current = int_type;
    for _ in 0..12 {
        current = typed.intern_type(CheckedType::Owned { inner: current });
    }
    assert!(typed.type_resolves_to_fin(current));
    let plain = typed.intern_type(CheckedType::Builtin(BuiltinType::Bool));
    let mut shell = plain;
    for _ in 0..12 {
        shell = typed.intern_type(CheckedType::Borrowed { inner: shell, mutable: false });
    }
    assert!(!typed.type_resolves_to_fin(shell));
}

#[test]
fn a_declaration_cycle_resolves_to_no_fin() {
    let mut typed = TypedProgram::new();
    let a = named(&mut typed, 1, "A");
    let b = named(&mut typed, 2, "B");
    typed.insert_typed_symbol(symbol(1, Some(b)));
    typed.insert_typed_symbol(symbol(2, Some(a)));
    assert!(!typed.type_resolves_to_fin(a));
}
