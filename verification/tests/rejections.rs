use lib::errors::TypecheckErrorKind;
use lib::exprs::{observe_context, ErrorCallMode, TypeContext, TypedExpr};
use lib::ids::{ScopeId, SourceUnitId, SymbolId, SyntaxOrigin};
use lib::model::{ActiveMutexGuard, RecoverableCallEffect, TypedProgram};
use lib::rejections::{
    owned_or_borrowed_inner, plain_value_expr, reject_bound_guard_boundary,
    reject_discarded_recoverable_eventual, reject_embedded_full_channel,
    reject_nested_eventual_value, reject_nested_fin_storage, reject_recoverable_error_shell_conversion,
    reject_recoverable_plain_use,
};
use lib::shapes::{type_contains_eventual, type_has_nested_eventual};
use lib::sorted_map::SortedMap;
use lib::types::{BuiltinType, CheckedType, CheckedTypeId};
use lib::widths::IntWidth;

fn at(line: usize) -> SyntaxOrigin {
    SyntaxOrigin {
        file: Some("main.fol".to_string()),
        line,
        column: 1,
        length: 2,
    }
}

fn context() -> TypeContext {
    TypeContext {
        source_unit_id: SourceUnitId(0),
        scope_id: ScopeId(0),
        routine_return_type: None,
        routine_error_type: None,
        error_call_mode: ErrorCallMode::Propagate,
        processor_task_call: None,
        allow_mutex_handle: false,
        repeating_loop_scope: None,
        inside_deferred_block: false,
        inside_error_deferred_block: false,
        field_projection_root: false,
    }
}

#[test]
fn embedded_channels_are_refused_with_their_origin() {
    let mut typed = TypedProgram::new();
    let int_type = typed.intern_type(CheckedType::Builtin(BuiltinType::Int(IntWidth::DEFAULT)));
    let channel = typed.intern_type(CheckedType::Channel {
        element_type: int_type,
    });
    let optional = typed.intern_type(CheckedType::Optional { inner: channel });
    assert!(reject_embedded_full_channel(&typed, channel, None).is_ok());
    let error = reject_embedded_full_channel(&typed, optional, Some(at(4))).unwrap_err();
    assert_eq!(error.kind(), TypecheckErrorKind::Unsupported);
    assert_eq!(error.diagnostic_location(), Some(&at(4)));
}

#[test]
fn nested_eventuals_are_refused() {
    let mut typed = TypedProgram::new();
    let int_type = typed.intern_type(CheckedType::Builtin(BuiltinType::Int(IntWidth::DEFAULT)));
    let eventual = typed.intern_type(CheckedType::Eventual {
        value_type: int_type,
        error_type: None,
    });
    let nested = typed.intern_type(CheckedType::Eventual {
        value_type: eventual,
        error_type: None,
    });
    let vector = typed.intern_type(CheckedType::Vector {
        element_type: eventual,
    });
    assert!(type_contains_eventual(&typed, eventual));
    assert!(!type_has_nested_eventual(&typed, eventual));
    assert!(type_has_nested_eventual(&typed, nested));
    assert!(type_has_nested_eventual(&typed, vector));
    assert!(reject_nested_eventual_value(&typed, eventual, None, "binding").is_ok());
    let error = reject_nested_eventual_value(&typed, vector, None, "binding").unwrap_err();
    assert_eq!(error.kind(), TypecheckErrorKind::Ownership);
    assert_eq!(
        error.message(),
        "binding cannot embed the internal eventual type in a composite value in V3; transfer or await the eventual directly"
    );
}

#[test]
fn buried_fin_values_are_refused() {
    let mut typed = TypedProgram::new();
    let handle = typed.intern_type(CheckedType::Record {
        fields: SortedMap::new(),
    });
    typed.record_fin_type(handle);
    let optional = typed.intern_type(CheckedType::Optional { inner: handle });
    let vector = typed.intern_type(CheckedType::Vector {
        element_type: optional,
    });
    assert!(reject_nested_fin_storage(&typed, optional, None, "global").is_ok());
    let error = reject_nested_fin_storage(&typed, vector, None, "global").unwrap_err();
    assert_eq!(error.kind(), TypecheckErrorKind::Unsupported);
    assert!(error
        .message()
        .starts_with("global holds a 'fin' value buried inside 'vec[opt[rec {  }]]'"));
}

#[test]
fn recoverable_results_are_not_plain_values() {
    let typed = TypedProgram::new();
    let error = reject_recoverable_plain_use(None, "assignment").unwrap_err();
    assert_eq!(error.kind(), TypecheckErrorKind::InvalidInput);
    assert!(error.message().starts_with("assignment cannot use '/ ErrorType'"));

    let effect = RecoverableCallEffect {
        error_type: CheckedTypeId(0),
    };
    let expr = TypedExpr::value(CheckedTypeId(1)).with_optional_effect(Some(effect));
    assert!(plain_value_expr(&typed, context(), expr, None, "argument").is_err());
    assert_eq!(
        plain_value_expr(&typed, observe_context(context()), expr, None, "argument").unwrap(),
        expr
    );
    let plain = TypedExpr::value(CheckedTypeId(1));
    assert_eq!(
        plain_value_expr(&typed, context(), plain, None, "argument").unwrap(),
        plain
    );
}

#[test]
fn discarded_recoverable_eventuals_are_refused() {
    let mut typed = TypedProgram::new();
    let int_type = typed.intern_type(CheckedType::Builtin(BuiltinType::Int(IntWidth::DEFAULT)));
    let recoverable = typed.intern_type(CheckedType::Eventual {
        value_type: int_type,
        error_type: Some(int_type),
    });
    assert!(reject_discarded_recoverable_eventual(&typed, int_type, None).is_ok());
    assert!(reject_discarded_recoverable_eventual(&typed, recoverable, None).is_err());
}

#[test]
fn a_bound_guard_cannot_cross_a_boundary() {
    let mut typed = TypedProgram::new();
    typed.register_mutex_guard(
        SymbolId(2),
        ActiveMutexGuard {
            scope: ScopeId(1),
            origin: at(3),
            bound: false,
        },
    );
    assert!(reject_bound_guard_boundary(&typed, "spawn", None).is_ok());
    typed.mark_guard_bound(SymbolId(2));
    let error = reject_bound_guard_boundary(&typed, "spawn", Some(at(9))).unwrap_err();
    assert_eq!(
        error.message(),
        "a mutex guard cannot cross spawn; end it ('[end]guard' or scope exit) before spawn"
    );
    assert_eq!(error.related_origins().len(), 1);
    assert_eq!(error.related_origins()[0].0, at(3));
    assert_eq!(error.related_origins()[0].1, "mutex guard acquired here");
}

#[test]
fn recoverable_results_cannot_become_error_shells() {
    let mut typed = TypedProgram::new();
    let int_type = typed.intern_type(CheckedType::Builtin(BuiltinType::Int(IntWidth::DEFAULT)));
    let error_shell = typed.intern_type(CheckedType::Error {
        inner: Some(int_type),
    });
    let effect = RecoverableCallEffect {
        error_type: int_type,
    };
    let recoverable = TypedExpr::value(int_type).with_optional_effect(Some(effect));
    let plain = TypedExpr::value(int_type);
    assert!(reject_recoverable_error_shell_conversion(&typed, error_shell, &plain, None, "return").is_ok());
    assert!(reject_recoverable_error_shell_conversion(&typed, int_type, &recoverable, None, "return").is_ok());
    let error =
        reject_recoverable_error_shell_conversion(&typed, error_shell, &recoverable, None, "return")
            .unwrap_err();
    assert_eq!(error.kind(), TypecheckErrorKind::Unsupported);
    assert_eq!(owned_or_borrowed_inner(&typed, error_shell), error_shell);
}
