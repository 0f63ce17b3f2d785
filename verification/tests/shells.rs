use lib::resolution::SymbolKind;
use lib::apparent::{
    apparent_type_id, channel_element_type, channel_receiver_element_type,
    expected_nil_shell_type, is_equality_type, is_error_shell_type, is_ordered_type,
    is_recoverable_eventual_type, is_v1_assignable, merge_recoverable_effects, type_is_eventual,
    unwrap_shell_result_type,
};
use lib::errors::TypecheckErrorKind;
use lib::ids::{ScopeId, SourceUnitId, SymbolId};
use lib::model::{RecoverableCallEffect, TypedProgram, TypedSymbol};
use lib::sorted_map::SortedMap;
use lib::types::{BuiltinType, CheckedType, CheckedTypeId, DeclaredTypeKind, RoutineType};
use lib::widths::IntWidth;

fn symbol(id: usize, declared_type: Option<CheckedTypeId>) -> TypedSymbol {
    TypedSymbol {
        symbol_id: SymbolId(id),
        kind: SymbolKind::ValueBinding,
        scope_id: ScopeId(0),
        source_unit_id: SourceUnitId(0),
        declared_type,
        receiver_type: None,
        param_defaults: Vec::new(),
        generic_params: Vec::new(),
        generic_constraints: SortedMap::new(),
        is_mutable: false,
        is_mutex: false,
        is_mutex_guard: false,
        is_channel_sender_capture: false,
        channel_receiver_params: SortedMap::new(),
    }
}

fn declared(typed: &mut TypedProgram, id: usize, name: &str, kind: DeclaredTypeKind) -> CheckedTypeId {
    typed.intern_type(CheckedType::Declared {
        symbol: SymbolId(id),
        name: name.to_string(),
        kind,
        args: Vec::new(),
    })
}

#[test]
fn nil_contract_only_accepts_optional_and_error_expected_shells() {
    let mut typed = TypedProgram::new();
    let int_type = typed.intern_type(CheckedType::Builtin(BuiltinType::Int(IntWidth::DEFAULT)));
    let str_type = typed.intern_type(CheckedType::Builtin(BuiltinType::Str));
    let optional_str = typed.intern_type(CheckedType::Optional { inner: str_type });
    let bare_error = typed.intern_type(CheckedType::Error { inner: None });
    let typed_error = typed.intern_type(CheckedType::Error {
        inner: Some(str_type),
    });

    assert_eq!(expected_nil_shell_type(&typed, None).unwrap(), None);
    assert_eq!(
        expected_nil_shell_type(&typed, Some(optional_str)).unwrap(),
        Some(optional_str)
    );
    assert_eq!(
        expected_nil_shell_type(&typed, Some(bare_error)).unwrap(),
        Some(bare_error)
    );
    assert_eq!(
        expected_nil_shell_type(&typed, Some(typed_error)).unwrap(),
        Some(typed_error)
    );
    assert_eq!(
        expected_nil_shell_type(&typed, Some(int_type)).unwrap(),
        None
    );
}

#[test]
fn unwrap_contract_only_accepts_optional_and_typed_error_shells() {
    let mut typed = TypedProgram::new();
    let int_type = typed.intern_type(CheckedType::Builtin(BuiltinType::Int(IntWidth::DEFAULT)));
    let str_type = typed.intern_type(CheckedType::Builtin(BuiltinType::Str));
    let bool_type = typed.intern_type(CheckedType::Builtin(BuiltinType::Bool));
    let optional_str = typed.intern_type(CheckedType::Optional { inner: str_type });
    let bare_error = typed.intern_type(CheckedType::Error { inner: None });
    let typed_error = typed.intern_type(CheckedType::Error {
        inner: Some(bool_type),
    });

    assert_eq!(
        unwrap_shell_result_type(&typed, optional_str).unwrap(),
        Some(str_type)
    );
    assert_eq!(
        unwrap_shell_result_type(&typed, typed_error).unwrap(),
        Some(bool_type)
    );
    assert_eq!(unwrap_shell_result_type(&typed, bare_error).unwrap(), None);
    assert_eq!(unwrap_shell_result_type(&typed, int_type).unwrap(), None);
}

#[test]
fn apparent_type_peels_wrappers_overrides_and_declarations() {
    let mut typed = TypedProgram::new();
    let int_type = typed.intern_type(CheckedType::Builtin(BuiltinType::Int(IntWidth::DEFAULT)));
    let owned = typed.intern_type(CheckedType::Owned { inner: int_type });
    let borrowed = typed.intern_type(CheckedType::Borrowed {
        inner: owned,
        mutable: false,
    });
    let alias = declared(&mut typed, 3, "Count", DeclaredTypeKind::Alias);
    typed.insert_typed_symbol(symbol(3, Some(borrowed)));
    let shell = typed.intern_type(CheckedType::Optional { inner: int_type });
    typed.record_apparent_type_override(shell, alias);
    let generic = declared(&mut typed, 9, "T", DeclaredTypeKind::GenericParameter);
    typed.insert_typed_symbol(symbol(9, Some(int_type)));

    assert_eq!(apparent_type_id(&typed, int_type).unwrap(), int_type);
    assert_eq!(apparent_type_id(&typed, borrowed).unwrap(), int_type);
    assert_eq!(apparent_type_id(&typed, alias).unwrap(), int_type);
    assert_eq!(apparent_type_id(&typed, shell).unwrap(), int_type);
    assert_eq!(apparent_type_id(&typed, generic).unwrap(), generic);
    assert_eq!(
        apparent_type_id(&typed, CheckedTypeId(77)).unwrap(),
        CheckedTypeId(77)
    );
    for start in [int_type, owned, borrowed, alias, shell, generic] {
        let once = apparent_type_id(&typed, start).unwrap();
        assert_eq!(apparent_type_id(&typed, once).unwrap(), once);
    }
}

#[test]
fn apparent_type_reports_a_cycle_of_declarations() {
    let mut typed = TypedProgram::new();
    let first = declared(&mut typed, 1, "A", DeclaredTypeKind::Alias);
    let second = declared(&mut typed, 2, "B", DeclaredTypeKind::Alias);
    typed.insert_typed_symbol(symbol(1, Some(second)));
    typed.insert_typed_symbol(symbol(2, Some(first)));

    let error = apparent_type_id(&typed, first).unwrap_err();
    assert_eq!(error.kind(), TypecheckErrorKind::InvalidInput);
    assert_eq!(error.message(), "declared type expansion encountered a cycle");
    assert!(is_error_shell_type(&typed, first).is_err());
}

#[test]
fn a_declaration_of_itself_is_its_own_apparent_type() {
    let mut typed = TypedProgram::new();
    let looped = declared(&mut typed, 5, "Loop", DeclaredTypeKind::Type);
    typed.insert_typed_symbol(symbol(5, Some(looped)));
    assert_eq!(apparent_type_id(&typed, looped).unwrap(), looped);
}

#[test]
fn channel_endpoints_expose_their_element_types() {
    let mut typed = TypedProgram::new();
    let int_type = typed.intern_type(CheckedType::Builtin(BuiltinType::Int(IntWidth::DEFAULT)));
    let full = typed.intern_type(CheckedType::Channel {
        element_type: int_type,
    });
    let sender = typed.intern_type(CheckedType::ChannelSender {
        element_type: int_type,
    });
    let receiver = typed.intern_type(CheckedType::ChannelReceiver {
        element_type: int_type,
    });

    assert_eq!(channel_element_type(&typed, full).unwrap(), int_type);
    assert_eq!(channel_element_type(&typed, sender).unwrap(), int_type);
    let not_endpoint = channel_element_type(&typed, receiver).unwrap_err();
    assert_eq!(not_endpoint.kind(), TypecheckErrorKind::InvalidInput);
    assert_eq!(
        not_endpoint.message(),
        "channel endpoint access requires chn[T], got 'chn[rx, int]'"
    );

    assert_eq!(channel_receiver_element_type(&typed, full).unwrap(), int_type);
    assert_eq!(channel_receiver_element_type(&typed, receiver).unwrap(), int_type);
    let sender_only = channel_receiver_element_type(&typed, sender).unwrap_err();
    assert_eq!(sender_only.kind(), TypecheckErrorKind::Ownership);
    let not_channel = channel_receiver_element_type(&typed, int_type).unwrap_err();
    assert_eq!(
        not_channel.message(),
        "channel receive requires chn[T], got 'int'"
    );
}

#[test]
fn assignability_follows_the_v1_rules() {
    let mut typed = TypedProgram::new();
    let int_type = typed.intern_type(CheckedType::Builtin(BuiltinType::Int(IntWidth::DEFAULT)));
    let str_type = typed.intern_type(CheckedType::Builtin(BuiltinType::Str));
    let never = typed.intern_type(CheckedType::Builtin(BuiltinType::Never));
    let full = typed.intern_type(CheckedType::Channel {
        element_type: int_type,
    });
    let sender = typed.intern_type(CheckedType::ChannelSender {
        element_type: int_type,
    });
    let optional_int = typed.intern_type(CheckedType::Optional { inner: int_type });
    let error_int = typed.intern_type(CheckedType::Error {
        inner: Some(int_type),
    });
    let routine = |names: Vec<String>| RoutineType {
        generic_params: Vec::new(),
        generic_constraints: SortedMap::new(),
        param_names: names,
        param_defaults: vec![None],
        variadic_index: None,
        mutex_params: SortedMap::new(),
        params: vec![int_type],
        return_type: Some(str_type),
        error_type: None,
        env_lifetime: false,
    };
    let expects = typed.intern_type(CheckedType::Routine(routine(vec!["a".to_string()])));
    let given = typed.intern_type(CheckedType::Routine(routine(vec!["b".to_string()])));

    assert!(is_v1_assignable(&typed, never, str_type, never).unwrap());
    assert!(is_v1_assignable(&typed, never, int_type, int_type).unwrap());
    assert!(!is_v1_assignable(&typed, never, int_type, str_type).unwrap());
    assert!(is_v1_assignable(&typed, never, sender, full).unwrap());
    assert!(!is_v1_assignable(&typed, never, full, sender).unwrap());
    assert!(is_v1_assignable(&typed, never, optional_int, int_type).unwrap());
    assert!(is_v1_assignable(&typed, never, error_int, int_type).unwrap());
    assert!(!is_v1_assignable(&typed, never, optional_int, str_type).unwrap());
    assert_ne!(expects, given);
    assert!(is_v1_assignable(&typed, never, expects, given).unwrap());
}

#[test]
fn equality_and_ordering_follow_the_scalar_families() {
    let mut typed = TypedProgram::new();
    let int_type = typed.intern_type(CheckedType::Builtin(BuiltinType::Int(IntWidth::DEFAULT)));
    let bool_type = typed.intern_type(CheckedType::Builtin(BuiltinType::Bool));
    let never = typed.intern_type(CheckedType::Builtin(BuiltinType::Never));
    let vector = typed.intern_type(CheckedType::Vector {
        element_type: int_type,
    });
    let generic = declared(&mut typed, 4, "T", DeclaredTypeKind::GenericParameter);
    let plain_generic = declared(&mut typed, 6, "U", DeclaredTypeKind::GenericParameter);
    typed.record_generic_capability_constraint(SymbolId(4), "ord".to_string());
    typed.record_generic_capability_constraint(SymbolId(6), "copy".to_string());

    assert!(is_equality_type(&typed, int_type));
    assert!(is_equality_type(&typed, bool_type));
    assert!(!is_equality_type(&typed, never));
    assert!(!is_equality_type(&typed, vector));
    assert!(is_equality_type(&typed, generic));
    assert!(!is_equality_type(&typed, plain_generic));
    assert!(is_ordered_type(&typed, int_type));
    assert!(!is_ordered_type(&typed, bool_type));
    assert!(is_ordered_type(&typed, generic));
    assert!(!is_ordered_type(&typed, plain_generic));
}

#[test]
fn eventual_kinds_are_told_apart() {
    let mut typed = TypedProgram::new();
    let int_type = typed.intern_type(CheckedType::Builtin(BuiltinType::Int(IntWidth::DEFAULT)));
    let str_type = typed.intern_type(CheckedType::Builtin(BuiltinType::Str));
    let plain = typed.intern_type(CheckedType::Eventual {
        value_type: int_type,
        error_type: None,
    });
    let recoverable = typed.intern_type(CheckedType::Eventual {
        value_type: int_type,
        error_type: Some(str_type),
    });
    let shell = typed.intern_type(CheckedType::Optional { inner: int_type });
    typed.record_apparent_type_override(shell, plain);

    assert!(type_is_eventual(&typed, plain));
    assert!(type_is_eventual(&typed, shell));
    assert!(!type_is_eventual(&typed, int_type));
    assert!(is_recoverable_eventual_type(&typed, recoverable));
    assert!(!is_recoverable_eventual_type(&typed, plain));
}

#[test]
fn recoverable_effects_merge_only_when_they_agree() {
    let mut typed = TypedProgram::new();
    let int_type = typed.intern_type(CheckedType::Builtin(BuiltinType::Int(IntWidth::DEFAULT)));
    let str_type = typed.intern_type(CheckedType::Builtin(BuiltinType::Str));
    let int_effect = RecoverableCallEffect {
        error_type: int_type,
    };
    let str_effect = RecoverableCallEffect {
        error_type: str_type,
    };

    let merged =
        merge_recoverable_effects(&typed, None, "when", &vec![None, Some(int_effect), None, Some(int_effect)])
            .unwrap();
    assert_eq!(merged, Some(int_effect));
    assert_eq!(
        merge_recoverable_effects(&typed, None, "when", &vec![None, None]).unwrap(),
        None
    );
    let error = merge_recoverable_effects(
        &typed,
        None,
        "branch",
        &vec![Some(int_effect), Some(str_effect)],
    )
    .unwrap_err();
    assert_eq!(error.kind(), TypecheckErrorKind::IncompatibleType);
    assert_eq!(
        error.message(),
        "branch mixes incompatible recoverable error types 'int' and 'str'"
    );
}
