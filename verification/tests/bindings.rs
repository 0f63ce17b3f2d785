use lib::resolution::SymbolKind;
use lib::bindings::{
    register_recoverable_eventual_binding, reject_reborrow_source,
    reject_uninitialized_ownership_binding,
};
use lib::errors::TypecheckErrorKind;
use lib::ids::{ScopeId, SourceUnitId, SymbolId, SyntaxOrigin};
use lib::model::{TypedProgram, TypedSymbol};
use lib::sorted_map::SortedMap;
use lib::types::{BuiltinType, CheckedType, CheckedTypeId};
use lib::widths::IntWidth;

fn symbol(id: usize, scope: usize, declared_type: Option<CheckedTypeId>) -> TypedSymbol {
    TypedSymbol {
        symbol_id: SymbolId(id),
        kind: SymbolKind::ValueBinding,
        scope_id: ScopeId(scope),
        source_unit_id: SourceUnitId(0),
        declared_type,
        receiver_type: None,
        param_defaults: Vec::new(),
        generic_params: Vec::new(),
        generic_constraints: SortedMap::new(),
        is_mutable: false,
        is_mutex: false,
        is_mutex_guard: false,
        is_channel_sender_capture: false,
        channel_receiver_params: SortedMap::new(),
    }
}

fn at(line: usize) -> SyntaxOrigin {
    SyntaxOrigin {
        file: None,
        line,
        column: 3,
        length: 2,
    }
}

#[test]
fn borrow_and_heap_bindings_need_initializers() {
    assert!(reject_uninitialized_ownership_binding("x", false, false, None).is_ok());
    let error = reject_uninitialized_ownership_binding("view", true, true, Some(at(5))).unwrap_err();
    assert_eq!(error.kind(), TypecheckErrorKind::Uninitialized);
    assert_eq!(
        error.message(),
        "borrow binding 'view' requires an initializer; a 'var[bor]' declaration must identify the owner it loans from"
    );
    assert_eq!(error.diagnostic_location(), Some(&at(5)));
    let error = reject_uninitialized_ownership_binding("buf", false, true, None).unwrap_err();
    assert_eq!(
        error.message(),
        "heap-allocating binding 'buf' requires an initializer; '@var'/'[new]' must be given a value to move or clone into the allocation"
    );
    assert_eq!(error.diagnostic_location(), None);
}

#[test]
fn recoverable_eventual_bindings_owe_handling_in_their_scope() {
    let mut typed = TypedProgram::new();
    let int = typed.intern_type(CheckedType::Builtin(BuiltinType::Int(IntWidth::DEFAULT)));
    let str = typed.intern_type(CheckedType::Builtin(BuiltinType::Str));
    let recoverable = typed.intern_type(CheckedType::Eventual {
        value_type: int,
        error_type: Some(str),
    });
    let plain = typed.intern_type(CheckedType::Eventual {
        value_type: int,
        error_type: None,
    });
    typed.insert_typed_symbol(symbol(1, 6, Some(recoverable)));
    typed.insert_typed_symbol(symbol(2, 6, Some(plain)));

    register_recoverable_eventual_binding(&mut typed, SymbolId(1), recoverable, ScopeId(8), Some(at(3)));
    let obligation = typed.recoverable_eventual_obligation(SymbolId(1)).unwrap();
    assert_eq!(obligation.owner_scope, ScopeId(6));
    assert_eq!(obligation.activation_scope, ScopeId(8));
    assert_eq!(obligation.origin, Some(at(3)));

    register_recoverable_eventual_binding(&mut typed, SymbolId(2), plain, ScopeId(8), None);
    assert!(typed.recoverable_eventual_obligation(SymbolId(2)).is_none());
    register_recoverable_eventual_binding(&mut typed, SymbolId(5), recoverable, ScopeId(8), None);
    assert!(typed.recoverable_eventual_obligation(SymbolId(5)).is_none());
}

#[test]
fn reborrowing_from_a_loan_is_allowed() {
    let typed = TypedProgram::new();
    assert!(reject_reborrow_source(&typed, SymbolId(1), at(1)).is_ok());
}
