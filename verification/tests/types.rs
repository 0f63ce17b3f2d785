use lib::ids::{SymbolId, SyntaxNodeId};
use lib::sorted_map::SortedMap;
use lib::types::{BuiltinType, CheckedType, CheckedTypeId, DeclaredTypeKind, RoutineType, TypeTable};
use lib::widths::{CharEncoding, FloatWidth, IntWidth};

#[test]
fn type_table_interns_builtin_types_canonically() {
    let mut table = TypeTable::new();

    let first = table.intern_builtin(BuiltinType::Int(IntWidth::DEFAULT));
    let second = table.intern_builtin(BuiltinType::Int(IntWidth::DEFAULT));
    let third = table.intern_builtin(BuiltinType::Str);

    assert_eq!(first, second);
    assert_ne!(first, third);
    assert_eq!(table.len(), 2);
    assert_eq!(
        table.get(first),
        Some(&CheckedType::Builtin(BuiltinType::Int(IntWidth::DEFAULT)))
    );
    assert_eq!(table.get(third), Some(&CheckedType::Builtin(BuiltinType::Str)));
}

#[test]
fn type_table_canonicalizes_declared_and_structural_shapes() {
    let mut table = TypeTable::new();
    let int_id = table.intern_builtin(BuiltinType::Int(IntWidth::DEFAULT));
    let declared = table.intern(CheckedType::Declared {
        symbol: SymbolId(4),
        name: "Point".to_string(),
        kind: DeclaredTypeKind::Type,
        args: Vec::new(),
    });

    let mut fields = SortedMap::new();
    fields.insert("x".to_string(), int_id);
    fields.insert("y".to_string(), int_id);
    let mut same_fields = SortedMap::new();
    same_fields.insert("y".to_string(), int_id);
    same_fields.insert("x".to_string(), int_id);
    let record_first = table.intern(CheckedType::Record { fields });
    let record_second = table.intern(CheckedType::Record {
        fields: same_fields,
    });
    let routine = table.intern(CheckedType::Routine(RoutineType {
        generic_params: Vec::new(),
        generic_constraints: SortedMap::new(),
        param_names: vec!["point".to_string(), "count".to_string()],
        param_defaults: vec![None, None],
        variadic_index: None,
        mutex_params: SortedMap::new(),
        params: vec![declared, int_id],
        return_type: Some(declared),
        error_type: None,
        env_lifetime: false,
    }));

    assert_eq!(record_first, record_second);
    assert_ne!(declared, routine);
    assert_eq!(
        table.get(declared),
        Some(&CheckedType::Declared {
            symbol: SymbolId(4),
            name: "Point".to_string(),
            kind: DeclaredTypeKind::Type,
            args: Vec::new(),
        })
    );
}

#[test]
fn builtin_type_as_str_matches_language_spelling() {
    assert_eq!(BuiltinType::Int(IntWidth::DEFAULT).as_str(), "int");
    assert_eq!(BuiltinType::Float(FloatWidth::DEFAULT).as_str(), "flt");
    assert_eq!(BuiltinType::Bool.as_str(), "bol");
    assert_eq!(BuiltinType::Char(CharEncoding::DEFAULT).as_str(), "chr");
    assert_eq!(BuiltinType::Char(CharEncoding::Utf16).as_str(), "utf16");
    assert_eq!(BuiltinType::Str.as_str(), "str");
    assert_eq!(BuiltinType::Never.as_str(), "never");
}

#[test]
fn builtin_type_all_names_covers_every_variant() {
    // Six unsized spellings, every sized integer and float, and the three
    // character encodings.
    assert_eq!(
        BuiltinType::ALL_NAMES.len(),
        6 + IntWidth::ALL.len() + 2 + CharEncoding::ALL.len()
    );
    for name in BuiltinType::ALL_NAMES {
        assert!(!name.is_empty());
    }
}

#[test]
fn render_type_handles_builtins_and_containers() {
    let mut table = TypeTable::new();
    let int_id = table.intern_builtin(BuiltinType::Int(IntWidth::DEFAULT));
    let str_id = table.intern_builtin(BuiltinType::Str);
    let opt_id = table.intern(CheckedType::Optional { inner: int_id });
    let vec_id = table.intern(CheckedType::Vector {
        element_type: str_id,
    });
    let map_id = table.intern(CheckedType::MapOf {
        key_type: str_id,
        value_type: int_id,
    });

    assert_eq!(table.render_type(int_id), "int");
    assert_eq!(table.render_type(opt_id), "opt[int]");
    assert_eq!(table.render_type(vec_id), "vec[str]");
    assert_eq!(table.render_type(map_id), "map[str, int]");
}

#[test]
fn render_type_handles_routines() {
    let mut table = TypeTable::new();
    let int_id = table.intern_builtin(BuiltinType::Int(IntWidth::DEFAULT));
    let str_id = table.intern_builtin(BuiltinType::Str);
    let routine_id = table.intern(CheckedType::Routine(RoutineType {
        generic_params: Vec::new(),
        generic_constraints: SortedMap::new(),
        param_names: vec!["left".to_string(), "right".to_string()],
        param_defaults: vec![None, None],
        variadic_index: None,
        mutex_params: SortedMap::new(),
        params: vec![int_id, str_id],
        return_type: Some(int_id),
        error_type: None,
        env_lifetime: false,
    }));
    assert_eq!(table.render_type(routine_id), "fun(int, str): int");
}

/// `ptr[raw, T]` and `ptr[raw, mut, T]` are distinct types.
#[test]
fn raw_and_raw_mut_are_distinct_types() {
    let mut table = TypeTable::new();
    let int = table.intern_builtin(BuiltinType::Int(IntWidth::DEFAULT));

    let read_only = table.intern(CheckedType::Pointer {
        target: int,
        shared: false,
        weak: false,
        sync: false,
        raw: true,
        mutable: false,
    });
    let writable = table.intern(CheckedType::Pointer {
        target: int,
        shared: false,
        weak: false,
        sync: false,
        raw: true,
        mutable: true,
    });
    let managed = table.intern(CheckedType::Pointer {
        target: int,
        shared: false,
        weak: false,
        sync: false,
        raw: false,
        mutable: false,
    });

    assert_ne!(read_only, writable, "constness must change type identity");
    assert_ne!(read_only, managed, "raw-ness must change type identity");
}

#[test]
fn interning_the_same_type_twice_keeps_one_entry() {
    let mut table = TypeTable::new();
    let a = table.intern(CheckedType::Vector {
        element_type: lib::types::CheckedTypeId(7),
    });
    let b = table.intern(CheckedType::Vector {
        element_type: lib::types::CheckedTypeId(7),
    });
    let c = table.intern(CheckedType::Sequence {
        element_type: lib::types::CheckedTypeId(7),
    });
    assert_eq!(a, b);
    assert_eq!(a.0, 0);
    assert_eq!(c.0, 1);
    assert_eq!(table.len(), 2);
    assert!(table.get(lib::types::CheckedTypeId(2)).is_none());
}

#[test]
fn render_type_spells_shells_and_unknown_ids() {
    let mut table = TypeTable::new();
    let int_id = table.intern_builtin(BuiltinType::Int(IntWidth::DEFAULT));
    let bool_id = table.intern_builtin(BuiltinType::Bool);
    let err_id = table.intern(CheckedType::Error {
        inner: Some(int_id),
    });
    let point = table.intern(CheckedType::Declared {
        symbol: SymbolId(1),
        name: "Pair".to_string(),
        kind: DeclaredTypeKind::Type,
        args: vec![int_id, bool_id],
    });
    assert_eq!(table.render_type(bool_id), "bol");
    assert_eq!(table.render_type(err_id), "err[int]");
    assert_eq!(table.render_type(point), "Pair[int, bol]");
    assert_eq!(table.render_type(lib::types::CheckedTypeId(99)), "unknown");
}

fn routine_with(defaults: Vec<Option<SyntaxNodeId>>, names: Vec<&str>) -> RoutineType {
    RoutineType {
        generic_params: Vec::new(),
        generic_constraints: SortedMap::new(),
        param_names: names.into_iter().map(|n| n.to_string()).collect(),
        param_defaults: defaults,
        variadic_index: None,
        mutex_params: SortedMap::new(),
        params: vec![CheckedTypeId(0)],
        return_type: None,
        error_type: None,
        env_lifetime: false,
    }
}

#[test]
fn routine_equality_ignores_which_default_expression_is_used() {
    let a = routine_with(vec![Some(SyntaxNodeId(1))], vec!["x"]);
    let b = routine_with(vec![Some(SyntaxNodeId(2))], vec!["x"]);
    let c = routine_with(vec![None], vec!["x"]);
    let d = routine_with(vec![Some(SyntaxNodeId(1))], vec!["y"]);
    assert!(a == b);
    assert!(a != c);
    assert!(a != d);
    let mut table = TypeTable::new();
    let ia = table.intern(CheckedType::Routine(a));
    let ib = table.intern(CheckedType::Routine(b));
    let ic = table.intern(CheckedType::Routine(c));
    let id = table.intern(CheckedType::Routine(d));
    assert_eq!(ia, ib);
    assert_ne!(ia, ic);
    assert_ne!(ia, id);
    assert_ne!(ic, id);
}
