use lib::resolution::SymbolKind;
use lib::borrows::symbol_allows_mutable_borrow;
use lib::errors::{internal_error, TypecheckErrorKind};
use lib::generics::{
    bind_generic_parameter, call_arity_error, ensure_assignable,
    infer_generic_bindings_from_argument,
};
use lib::ids::{ScopeId, SourceUnitId, SymbolId, SyntaxOrigin};
use lib::model::{TypedProgram, TypedSymbol};
use lib::sorted_map::SortedMap;
use lib::text::decimal;
use lib::types::{BuiltinType, CheckedType, CheckedTypeId, DeclaredTypeKind};
use lib::widths::IntWidth;

fn symbol(id: usize, declared_type: Option<CheckedTypeId>) -> TypedSymbol {
    TypedSymbol {
        symbol_id: SymbolId(id),
        kind: SymbolKind::ValueBinding,
        scope_id: ScopeId(0),
        source_unit_id: SourceUnitId(0),
        declared_type,
        receiver_type: None,
        param_defaults: Vec::new(),
        generic_params: Vec::new(),
        generic_constraints: SortedMap::new(),
        is_mutable: false,
        is_mutex: false,
        is_mutex_guard: false,
        is_channel_sender_capture: false,
        channel_receiver_params: SortedMap::new(),
    }
}

fn generic(typed: &mut TypedProgram, id: usize, name: &str) -> CheckedTypeId {
    typed.intern_type(CheckedType::Declared {
        symbol: SymbolId(id),
        name: name.to_string(),
        kind: DeclaredTypeKind::GenericParameter,
        args: Vec::new(),
    })
}

fn origin() -> SyntaxOrigin {
    SyntaxOrigin {
        file: Some("main.fol".to_string()),
        line: 4,
        column: 9,
        length: 3,
    }
}

struct Scalars {
    typed: TypedProgram,
    never: CheckedTypeId,
    int: CheckedTypeId,
    str: CheckedTypeId,
    bool: CheckedTypeId,
}

fn scalars() -> Scalars {
    let mut typed = TypedProgram::new();
    let never = typed.intern_type(CheckedType::Builtin(BuiltinType::Never));
    let int = typed.intern_type(CheckedType::Builtin(BuiltinType::Int(IntWidth::DEFAULT)));
    let str = typed.intern_type(CheckedType::Builtin(BuiltinType::Str));
    let bool = typed.intern_type(CheckedType::Builtin(BuiltinType::Bool));
    Scalars {
        typed,
        never,
        int,
        str,
        bool,
    }
}

#[test]
fn decimal_spells_numbers_without_leading_zeros() {
    assert_eq!(decimal(0), "0");
    assert_eq!(decimal(7), "7");
    assert_eq!(decimal(10), "10");
    assert_eq!(decimal(40213), "40213");
}

#[test]
fn assignable_arguments_pass_and_others_name_both_types() {
    let s = scalars();
    assert!(ensure_assignable(&s.typed, s.never, s.int, s.int, "argument".to_string(), None).is_ok());
    assert!(ensure_assignable(&s.typed, s.never, s.int, s.never, "argument".to_string(), None).is_ok());

    let error = ensure_assignable(
        &s.typed,
        s.never,
        s.int,
        s.str,
        "call to 'f'".to_string(),
        Some(origin()),
    )
    .unwrap_err();
    assert_eq!(error.kind(), TypecheckErrorKind::IncompatibleType);
    assert_eq!(error.message(), "call to 'f' expects 'int' but got 'str'");
    assert_eq!(error.diagnostic_location(), Some(&origin()));
}

#[test]
fn an_unbound_generic_parameter_is_bound_to_the_argument_type() {
    let s = scalars();
    let mut bindings: SortedMap<SymbolId, CheckedTypeId> = SortedMap::new();
    bind_generic_parameter(
        &s.typed,
        s.never,
        SymbolId(7),
        s.int,
        &mut bindings,
        "argument".to_string(),
        None,
    )
    .unwrap();
    assert_eq!(bindings.get(&SymbolId(7)), Some(&s.int));
}

#[test]
fn a_bound_generic_parameter_must_accept_the_next_argument() {
    let s = scalars();
    let mut bindings: SortedMap<SymbolId, CheckedTypeId> = SortedMap::new();
    bindings.insert(SymbolId(7), s.int);
    bind_generic_parameter(
        &s.typed,
        s.never,
        SymbolId(7),
        s.int,
        &mut bindings,
        "argument".to_string(),
        None,
    )
    .unwrap();
    let error = bind_generic_parameter(
        &s.typed,
        s.never,
        SymbolId(7),
        s.bool,
        &mut bindings,
        "argument".to_string(),
        None,
    )
    .unwrap_err();
    assert_eq!(error.message(), "argument expects 'int' but got 'bol'");
    assert_eq!(bindings.get(&SymbolId(7)), Some(&s.int));
    assert_eq!(bindings.len(), 1);
}

#[test]
fn inference_binds_generic_parameters_inside_containers() {
    let mut s = scalars();
    let t = generic(&mut s.typed, 7, "T");
    let u = generic(&mut s.typed, 8, "U");
    let vec_t = s.typed.intern_type(CheckedType::Vector { element_type: t });
    let vec_int = s.typed.intern_type(CheckedType::Vector { element_type: s.int });
    let map_t_u = s.typed.intern_type(CheckedType::MapOf {
        key_type: t,
        value_type: u,
    });
    let map_int_str = s.typed.intern_type(CheckedType::MapOf {
        key_type: s.int,
        value_type: s.str,
    });

    let mut bindings: SortedMap<SymbolId, CheckedTypeId> = SortedMap::new();
    infer_generic_bindings_from_argument(
        &s.typed,
        s.never,
        vec_t,
        vec_int,
        &mut bindings,
        "argument 1".to_string(),
        None,
    )
    .unwrap();
    assert_eq!(bindings.get(&SymbolId(7)), Some(&s.int));

    infer_generic_bindings_from_argument(
        &s.typed,
        s.never,
        map_t_u,
        map_int_str,
        &mut bindings,
        "argument 2".to_string(),
        None,
    )
    .unwrap();
    assert_eq!(bindings.get(&SymbolId(7)), Some(&s.int));
    assert_eq!(bindings.get(&SymbolId(8)), Some(&s.str));
}

#[test]
fn inference_rejects_a_second_argument_that_disagrees_with_a_binding() {
    let mut s = scalars();
    let t = generic(&mut s.typed, 7, "T");
    let opt_t = s.typed.intern_type(CheckedType::Optional { inner: t });
    let opt_bool = s.typed.intern_type(CheckedType::Optional { inner: s.bool });
    let mut bindings: SortedMap<SymbolId, CheckedTypeId> = SortedMap::new();
    bindings.insert(SymbolId(7), s.int);
    let error = infer_generic_bindings_from_argument(
        &s.typed,
        s.never,
        opt_t,
        opt_bool,
        &mut bindings,
        "call to 'pick'".to_string(),
        None,
    )
    .unwrap_err();
    assert_eq!(error.kind(), TypecheckErrorKind::IncompatibleType);
    assert_eq!(error.message(), "call to 'pick' expects 'int' but got 'bol'");
}

#[test]
fn inference_pairs_record_fields_by_name() {
    let mut s = scalars();
    let t = generic(&mut s.typed, 7, "T");
    let mut expected_fields: SortedMap<String, CheckedTypeId> = SortedMap::new();
    expected_fields.insert("count".to_string(), s.int);
    expected_fields.insert("value".to_string(), t);
    let mut actual_fields: SortedMap<String, CheckedTypeId> = SortedMap::new();
    actual_fields.insert("value".to_string(), s.str);
    actual_fields.insert("count".to_string(), s.int);
    let expected = s.typed.intern_type(CheckedType::Record {
        fields: expected_fields,
    });
    let actual = s.typed.intern_type(CheckedType::Record {
        fields: actual_fields,
    });
    let mut bindings: SortedMap<SymbolId, CheckedTypeId> = SortedMap::new();
    infer_generic_bindings_from_argument(
        &s.typed,
        s.never,
        expected,
        actual,
        &mut bindings,
        "argument".to_string(),
        None,
    )
    .unwrap();
    assert_eq!(bindings.get(&SymbolId(7)), Some(&s.str));
}

#[test]
fn inference_checks_mismatched_shapes_for_assignability() {
    let mut s = scalars();
    let t = generic(&mut s.typed, 7, "T");
    let vec_t = s.typed.intern_type(CheckedType::Vector { element_type: t });
    let seq_int = s.typed.intern_type(CheckedType::Sequence {
        element_type: s.int,
    });
    let mut bindings: SortedMap<SymbolId, CheckedTypeId> = SortedMap::new();
    let error = infer_generic_bindings_from_argument(
        &s.typed,
        s.never,
        vec_t,
        seq_int,
        &mut bindings,
        "argument".to_string(),
        Some(origin()),
    )
    .unwrap_err();
    assert_eq!(error.message(), "argument expects 'vec[T]' but got 'seq[int]'");
    assert_eq!(bindings.len(), 0);
}

#[test]
fn inference_pairs_the_arguments_of_one_generic_named_type() {
    let mut s = scalars();
    let t = generic(&mut s.typed, 7, "T");
    let boxed_t = s.typed.intern_type(CheckedType::Declared {
        symbol: SymbolId(20),
        name: "Box".to_string(),
        kind: DeclaredTypeKind::Type,
        args: vec![t],
    });
    let boxed_str = s.typed.intern_type(CheckedType::Declared {
        symbol: SymbolId(20),
        name: "Box".to_string(),
        kind: DeclaredTypeKind::Type,
        args: vec![s.str],
    });
    s.typed.insert_typed_symbol(symbol(20, None));
    let mut bindings: SortedMap<SymbolId, CheckedTypeId> = SortedMap::new();
    infer_generic_bindings_from_argument(
        &s.typed,
        s.never,
        boxed_t,
        boxed_str,
        &mut bindings,
        "argument".to_string(),
        None,
    )
    .unwrap();
    assert_eq!(bindings.get(&SymbolId(7)), Some(&s.str));
}

#[test]
fn arity_errors_count_arguments_and_fall_back_to_the_program_start() {
    let error = call_arity_error(2, 3, "pick", None);
    assert_eq!(error.kind(), TypecheckErrorKind::InvalidInput);
    assert_eq!(error.message(), "call to 'pick' expects 2 args but got 3");
    assert_eq!(
        error.diagnostic_location(),
        Some(&SyntaxOrigin {
            file: None,
            line: 1,
            column: 1,
            length: 4,
        })
    );
    let located = call_arity_error(0, 12, "f", Some(origin()));
    assert_eq!(located.message(), "call to 'f' expects 0 args but got 12");
    assert_eq!(located.diagnostic_location(), Some(&origin()));
}

#[test]
fn mutable_loans_come_from_mutable_owners_mutexes_and_mutable_loans() {
    let mut s = scalars();
    let loaned = s.typed.intern_type(CheckedType::Borrowed {
        inner: s.int,
        mutable: true,
    });
    let shared = s.typed.intern_type(CheckedType::Borrowed {
        inner: s.int,
        mutable: false,
    });
    let mut owner = symbol(1, Some(s.int));
    owner.is_mutable = true;
    let mut mutex = symbol(2, Some(s.int));
    mutex.is_mutex = true;
    s.typed.insert_typed_symbol(owner);
    s.typed.insert_typed_symbol(mutex);
    s.typed.insert_typed_symbol(symbol(3, Some(loaned)));
    s.typed.insert_typed_symbol(symbol(4, Some(shared)));
    s.typed.insert_typed_symbol(symbol(5, Some(s.int)));
    assert!(symbol_allows_mutable_borrow(&s.typed, SymbolId(1)));
    assert!(symbol_allows_mutable_borrow(&s.typed, SymbolId(2)));
    assert!(symbol_allows_mutable_borrow(&s.typed, SymbolId(3)));
    assert!(!symbol_allows_mutable_borrow(&s.typed, SymbolId(4)));
    assert!(!symbol_allows_mutable_borrow(&s.typed, SymbolId(5)));
    assert!(!symbol_allows_mutable_borrow(&s.typed, SymbolId(6)));
}

#[test]
fn internal_errors_keep_their_position_when_known() {
    let located = internal_error("generic substitution lost a checked type", Some(origin()));
    assert_eq!(located.kind(), TypecheckErrorKind::Internal);
    assert_eq!(located.message(), "generic substitution lost a checked type");
    assert_eq!(located.diagnostic_location(), Some(&origin()));
    let bare = internal_error("lost", None);
    assert_eq!(bare.diagnostic_location(), None);
}
