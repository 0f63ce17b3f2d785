use lib::resolution::SymbolKind;
use lib::apparent::expected_is_channel_receiver;
use lib::config::TypecheckCapabilityModel;
use lib::containers::{
    expected_container_shape, intern_linear_container_shape, iterable_element_type,
    reject_heap_backed_container_kind_in_core, type_set_index_access, ContainerType,
    ExpectedContainerShape,
};
use lib::errors::TypecheckErrorKind;
use lib::ids::{ScopeId, SourceUnitId, SymbolId, SyntaxOrigin};
use lib::model::{TypedConformance, TypedConformanceClaim, TypedProgram, TypedSymbol};
use lib::shapes::{ownership_moves_on_transfer, type_contains_fin};
use lib::sorted_map::SortedMap;
use lib::types::{BuiltinType, CheckedType, CheckedTypeId, DeclaredTypeKind};
use lib::widths::IntWidth;

fn symbol(id: usize, declared_type: Option<CheckedTypeId>) -> TypedSymbol {
    TypedSymbol {
        symbol_id: SymbolId(id),
        kind: SymbolKind::ValueBinding,
        scope_id: ScopeId(0),
        source_unit_id: SourceUnitId(0),
        declared_type,
        receiver_type: None,
        param_defaults: Vec::new(),
        generic_params: Vec::new(),
        generic_constraints: SortedMap::new(),
        is_mutable: false,
        is_mutex: false,
        is_mutex_guard: false,
        is_channel_sender_capture: false,
        channel_receiver_params: SortedMap::new(),
    }
}

fn int_type(typed: &mut TypedProgram) -> CheckedTypeId {
    typed.intern_type(CheckedType::Builtin(BuiltinType::Int(IntWidth::DEFAULT)))
}

#[test]
fn expected_shapes_come_from_the_apparent_type() {
    let mut typed = TypedProgram::new();
    let int = int_type(&mut typed);
    let str = typed.intern_type(CheckedType::Builtin(BuiltinType::Str));
    let array = typed.intern_type(CheckedType::Array {
        element_type: int,
        size: Some(3),
    });
    let set = typed.intern_type(CheckedType::SetOf {
        member_types: vec![int, str],
    });
    let map = typed.intern_type(CheckedType::MapOf {
        key_type: str,
        value_type: int,
    });
    let owned_vec_inner = typed.intern_type(CheckedType::Vector { element_type: str });
    let owned_vec = typed.intern_type(CheckedType::Owned {
        inner: owned_vec_inner,
    });

    let shape = expected_container_shape(&typed, array).unwrap().unwrap();
    assert_eq!(
        shape,
        ExpectedContainerShape::Array {
            element_type: int,
            size: Some(3)
        }
    );
    assert_eq!(shape.kind(), ContainerType::Array);
    let shape = expected_container_shape(&typed, set).unwrap().unwrap();
    assert_eq!(
        shape,
        ExpectedContainerShape::SetOf {
            member_types: vec![int, str]
        }
    );
    assert_eq!(shape.kind(), ContainerType::SetOf);
    assert_eq!(
        expected_container_shape(&typed, map).unwrap().unwrap().kind(),
        ContainerType::MapOf
    );
    assert_eq!(
        expected_container_shape(&typed, owned_vec).unwrap(),
        Some(ExpectedContainerShape::Vector { element_type: str })
    );
    assert_eq!(expected_container_shape(&typed, int).unwrap(), None);
}

#[test]
fn linear_literal_shapes_are_interned_once() {
    let mut typed = TypedProgram::new();
    let int = int_type(&mut typed);
    let array = intern_linear_container_shape(&mut typed, ContainerType::Array, int, Some(2));
    let vector = intern_linear_container_shape(&mut typed, ContainerType::Vector, int, None);
    let sequence = intern_linear_container_shape(&mut typed, ContainerType::Sequence, int, None);
    assert_eq!(
        typed.type_table().get(array),
        Some(&CheckedType::Array {
            element_type: int,
            size: Some(2)
        })
    );
    assert_eq!(
        typed.type_table().get(vector),
        Some(&CheckedType::Vector { element_type: int })
    );
    assert_eq!(
        typed.type_table().get(sequence),
        Some(&CheckedType::Sequence { element_type: int })
    );
    assert_eq!(
        intern_linear_container_shape(&mut typed, ContainerType::Vector, int, Some(9)),
        vector
    );
}

#[test]
fn core_builds_refuse_heap_backed_literals_but_not_arrays() {
    let core = TypedProgram::with_model(TypecheckCapabilityModel::Core);
    let std = TypedProgram::new();
    let at = SyntaxOrigin {
        file: None,
        line: 2,
        column: 5,
        length: 1,
    };
    assert!(reject_heap_backed_container_kind_in_core(&core, ContainerType::Array, None).is_ok());
    assert!(reject_heap_backed_container_kind_in_core(&std, ContainerType::Vector, None).is_ok());
    let error =
        reject_heap_backed_container_kind_in_core(&core, ContainerType::Vector, Some(at.clone()))
            .unwrap_err();
    assert_eq!(error.kind(), TypecheckErrorKind::Unsupported);
    assert_eq!(
        error.message(),
        "vec[...] literals require heap support and are unavailable in 'fol_model = core'"
    );
    assert_eq!(error.diagnostic_location(), Some(&at));
    let error =
        reject_heap_backed_container_kind_in_core(&core, ContainerType::MapOf, None).unwrap_err();
    assert_eq!(
        error.message(),
        "map[...] literals require heap support and are unavailable in 'fol_model = core'"
    );
}

#[test]
fn loops_walk_elements_and_homogeneous_sets() {
    let mut typed = TypedProgram::new();
    let int = int_type(&mut typed);
    let str = typed.intern_type(CheckedType::Builtin(BuiltinType::Str));
    let seq = typed.intern_type(CheckedType::Sequence { element_type: str });
    let same = typed.intern_type(CheckedType::SetOf {
        member_types: vec![int, int],
    });
    let mixed = typed.intern_type(CheckedType::SetOf {
        member_types: vec![int, str],
    });
    let empty = typed.intern_type(CheckedType::SetOf {
        member_types: Vec::new(),
    });
    assert_eq!(iterable_element_type(&typed, seq).unwrap(), str);
    assert_eq!(iterable_element_type(&typed, same).unwrap(), int);

    let error = iterable_element_type(&typed, mixed).unwrap_err();
    assert_eq!(error.kind(), TypecheckErrorKind::Unsupported);
    assert_eq!(error.message(), "heterogeneous set iteration is not yet supported");
    let error = iterable_element_type(&typed, empty).unwrap_err();
    assert_eq!(error.kind(), TypecheckErrorKind::InvalidInput);
    assert_eq!(
        error.message(),
        "cannot infer an iteration element type from an empty set"
    );
    let error = iterable_element_type(&typed, int).unwrap_err();
    assert_eq!(
        error.message(),
        "loop iteration requires an array, vector, sequence, or homogeneous set receiver, got 'int'"
    );
}

#[test]
fn only_a_receiver_expected_type_expects_a_receive() {
    let mut typed = TypedProgram::new();
    let int = int_type(&mut typed);
    let receiver = typed.intern_type(CheckedType::ChannelReceiver { element_type: int });
    let sender = typed.intern_type(CheckedType::ChannelSender { element_type: int });
    let owned_receiver = typed.intern_type(CheckedType::Owned { inner: receiver });
    assert!(expected_is_channel_receiver(&typed, Some(receiver)));
    assert!(expected_is_channel_receiver(&typed, Some(owned_receiver)));
    assert!(!expected_is_channel_receiver(&typed, Some(sender)));
    assert!(!expected_is_channel_receiver(&typed, None));
}

#[test]
fn affine_values_move_and_plain_values_copy_on_transfer() {
    let mut typed = TypedProgram::new();
    let int = int_type(&mut typed);
    let vec_int = typed.intern_type(CheckedType::Vector { element_type: int });
    let owned_int = typed.intern_type(CheckedType::Owned { inner: int });
    let vec_owned = typed.intern_type(CheckedType::Vector {
        element_type: owned_int,
    });
    let receiver = typed.intern_type(CheckedType::ChannelReceiver { element_type: int });
    let sender = typed.intern_type(CheckedType::ChannelSender { element_type: owned_int });
    let borrowed_owned = typed.intern_type(CheckedType::Borrowed {
        inner: owned_int,
        mutable: false,
    });
    let unique = typed.intern_type(CheckedType::Pointer {
        target: int,
        shared: false,
        weak: false,
        sync: false,
        raw: false,
        mutable: false,
    });
    let weak = typed.intern_type(CheckedType::Pointer {
        target: owned_int,
        shared: false,
        weak: true,
        sync: false,
        raw: false,
        mutable: false,
    });
    let generic = typed.intern_type(CheckedType::Declared {
        symbol: SymbolId(7),
        name: "T".to_string(),
        kind: DeclaredTypeKind::GenericParameter,
        args: Vec::new(),
    });
    let named = typed.intern_type(CheckedType::Declared {
        symbol: SymbolId(8),
        name: "Handle".to_string(),
        kind: DeclaredTypeKind::Type,
        args: Vec::new(),
    });
    typed.insert_typed_symbol(symbol(8, Some(vec_owned)));
    let error_owned = typed.intern_type(CheckedType::Error {
        inner: Some(owned_int),
    });
    let fin_record = typed.intern_type(CheckedType::Record {
        fields: SortedMap::new(),
    });
    typed.record_fin_type(fin_record);

    assert!(!ownership_moves_on_transfer(&typed, int));
    assert!(!ownership_moves_on_transfer(&typed, vec_int));
    assert!(ownership_moves_on_transfer(&typed, owned_int));
    assert!(ownership_moves_on_transfer(&typed, vec_owned));
    assert!(ownership_moves_on_transfer(&typed, receiver));
    assert!(!ownership_moves_on_transfer(&typed, sender));
    assert!(!ownership_moves_on_transfer(&typed, borrowed_owned));
    assert!(ownership_moves_on_transfer(&typed, unique));
    assert!(!ownership_moves_on_transfer(&typed, weak));
    assert!(ownership_moves_on_transfer(&typed, generic));
    assert!(ownership_moves_on_transfer(&typed, named));
    assert!(ownership_moves_on_transfer(&typed, error_owned));
    assert!(ownership_moves_on_transfer(&typed, fin_record));
    let fin_list = typed.intern_type(CheckedType::Vector {
        element_type: fin_record,
    });
    assert!(type_contains_fin(&typed, fin_list));
    assert!(ownership_moves_on_transfer(&typed, fin_list));
}

#[test]
fn every_symbol_and_conformance_is_listed_in_symbol_order() {
    let mut typed = TypedProgram::new();
    let int = int_type(&mut typed);
    typed.insert_typed_symbol(symbol(5, Some(int)));
    typed.insert_typed_symbol(symbol(2, None));
    typed.insert_typed_symbol(symbol(9, None));
    let listed: Vec<usize> = typed
        .all_typed_symbols()
        .iter()
        .map(|s| s.symbol_id.0)
        .collect();
    assert_eq!(listed, vec![2, 5, 9]);

    for id in [4, 1] {
        typed.record_typed_conformance(TypedConformance {
            type_symbol_id: SymbolId(id),
            standard_symbol_ids: vec![SymbolId(20)],
            claims: vec![TypedConformanceClaim {
                standard_symbol_id: SymbolId(20),
                type_args: Vec::new(),
            }],
        });
    }
    let listed: Vec<usize> = typed
        .all_typed_conformances()
        .iter()
        .map(|c| c.type_symbol_id.0)
        .collect();
    assert_eq!(listed, vec![1, 4]);
}

#[test]
fn set_indexes_pick_a_member_or_need_one_member_type() {
    let a = CheckedTypeId(1);
    let b = CheckedTypeId(2);
    assert_eq!(type_set_index_access(&TypedProgram::new(), &[a, b], Some(1)).unwrap(), Some(b));
    assert_eq!(type_set_index_access(&TypedProgram::new(), &[a, a], None).unwrap(), Some(a));
    let typed = TypedProgram::new();
    let error = type_set_index_access(&typed, &[a, b], None).unwrap_err();
    assert_eq!(error.kind(), TypecheckErrorKind::Unsupported);
    assert_eq!(
        error.message(),
        "non-literal indexing into heterogeneous sets is not yet supported"
    );
    let error = type_set_index_access(&typed, &[], None).unwrap_err();
    assert_eq!(error.message(), "cannot index an empty set value in V1");
    let error = type_set_index_access(&typed, &[a], Some(-1)).unwrap_err();
    assert_eq!(error.message(), "set index literals must be non-negative");
    let error = type_set_index_access(&typed, &[a, b], Some(2)).unwrap_err();
    assert_eq!(error.kind(), TypecheckErrorKind::InvalidInput);
    assert_eq!(error.message(), "set index 2 is out of bounds for a 2-member set");
}
