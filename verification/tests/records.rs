use lib::config::TypecheckCapabilityModel;
use lib::errors::TypecheckErrorKind;
use lib::exprs::{ErrorCallMode, TypeContext};
use lib::ids::{ReferenceId, ScopeId, SourceUnitId, SymbolId, SyntaxNodeId, SyntaxOrigin};
use lib::model::{RecordFieldLayout, TypedProgram, TypedReference, TypedSymbol};
use lib::records::type_record_init;
use lib::resolution::{
    ReferenceKind, Resolution, ResolvedReference, ResolvedScope, ResolvedSymbol, SymbolKind,
};
use lib::sorted_map::SortedMap;
use lib::types::{BuiltinType, CheckedType, CheckedTypeId};
use lib::operators::BinaryOperator;
use lib::walk::{Expr, Literal, OwnershipOption};
use lib::widths::IntWidth;

fn at(line: usize) -> SyntaxOrigin {
    SyntaxOrigin { file: None, line, column: 2, length: 1 }
}

/// `n` (symbol 10, an `int`) is used at node 50, and `s` (symbol 11, a
/// `str`) at node 51.
fn resolution() -> Resolution {
    let mut resolved = Resolution::new();
    resolved.scopes.insert(ScopeId(1), ResolvedScope { parent: None, routine: true });
    for (id, name) in [(10, "n"), (11, "s"), (12, "o"), (13, "p"), (14, "w")] {
        resolved.symbols.insert(
            SymbolId(id),
            ResolvedSymbol {
                name: name.to_string(),
                kind: SymbolKind::ValueBinding,
                source_unit: SourceUnitId(0),
                scope: ScopeId(1),
                origin: None,
                mounted: false,
                is_mutable: false,
            },
        );
    }
    for (reference, node, symbol) in [(0, 50, 10), (1, 51, 11), (2, 52, 12), (3, 53, 13), (4, 54, 14)] {
        resolved.references.insert(
            ReferenceId(reference),
            ResolvedReference {
                kind: ReferenceKind::Identifier,
                syntax_id: Some(SyntaxNodeId(node)),
                source_unit: SourceUnitId(0),
                resolved: Some(SymbolId(symbol)),
            },
        );
        resolved.origins.insert(SyntaxNodeId(node), at(node));
    }
    resolved
}

fn symbol(id: usize, declared_type: CheckedTypeId) -> TypedSymbol {
    TypedSymbol {
        symbol_id: SymbolId(id),
        kind: SymbolKind::ValueBinding,
        scope_id: ScopeId(1),
        source_unit_id: SourceUnitId(0),
        declared_type: Some(declared_type),
        receiver_type: None,
        param_defaults: Vec::new(),
        generic_params: Vec::new(),
        generic_constraints: SortedMap::new(),
        is_mutable: false,
        is_mutex: false,
        is_mutex_guard: false,
        is_channel_sender_capture: false,
        channel_receiver_params: SortedMap::new(),
    }
}

fn context() -> TypeContext {
    TypeContext {
        source_unit_id: SourceUnitId(0),
        scope_id: ScopeId(1),
        routine_return_type: None,
        routine_error_type: None,
        error_call_mode: ErrorCallMode::Propagate,
        processor_task_call: None,
        allow_mutex_handle: false,
        repeating_loop_scope: None,
        inside_deferred_block: false,
        inside_error_deferred_block: false,
        field_projection_root: false,
    }
}

/// A program under `model` with `n: int` and `s: str`.
fn program(model: TypecheckCapabilityModel) -> (TypedProgram, CheckedTypeId, CheckedTypeId) {
    let mut typed = TypedProgram::with_model(model);
    let int = typed.intern_type(CheckedType::Builtin(BuiltinType::Int(IntWidth::DEFAULT)));
    let text = typed.intern_type(CheckedType::Builtin(BuiltinType::Str));
    typed.insert_typed_symbol(symbol(10, int));
    typed.insert_typed_symbol(symbol(11, text));
    let optional = typed.intern_type(CheckedType::Optional { inner: int });
    typed.insert_typed_symbol(symbol(12, optional));
    let pointer = typed.intern_type(CheckedType::Pointer {
        target: int,
        shared: false,
        weak: false,
        sync: false,
        raw: false,
        mutable: false,
    });
    typed.insert_typed_symbol(symbol(13, pointer));
    let weak = typed.intern_type(CheckedType::Pointer {
        target: int,
        shared: false,
        weak: true,
        sync: false,
        raw: false,
        mutable: false,
    });
    typed.insert_typed_symbol(symbol(14, weak));
    for reference in [0, 1, 2, 3, 4] {
        typed.insert_typed_reference(TypedReference {
            reference_id: ReferenceId(reference),
            kind: ReferenceKind::Identifier,
            source_unit_id: SourceUnitId(0),
            resolved_type: None,
            recoverable_effect: None,
        });
    }
    (typed, int, text)
}

fn name(name: &str, node: usize) -> Expr<'_> {
    Expr::Identifier { name, syntax_id: Some(SyntaxNodeId(node)) }
}


/// A record `{ count: int, flag: bol, handle: ptr[int] }` in `typed`.
fn point(typed: &mut TypedProgram) -> CheckedTypeId {
    let int = typed.intern_type(CheckedType::Builtin(BuiltinType::Int(IntWidth::DEFAULT)));
    let flag = typed.intern_type(CheckedType::Builtin(BuiltinType::Bool));
    let handle = typed.intern_type(CheckedType::Pointer {
        target: int,
        shared: false,
        weak: false,
        sync: false,
        raw: false,
        mutable: false,
    });
    let mut fields = SortedMap::new();
    fields.insert("count".to_string(), int);
    fields.insert("flag".to_string(), flag);
    fields.insert("handle".to_string(), handle);
    typed.intern_type(CheckedType::Record { fields })
}

fn field<'a>(name: &str, value: Expr<'a>) -> (String, Expr<'a>) {
    (name.to_string(), value)
}

#[test]
fn a_record_initializer_gives_its_expected_type_and_moves_owned_fields() {
    let resolved = resolution();
    let (mut typed, _, _) = program(TypecheckCapabilityModel::Std);
    let record = point(&mut typed);
    let bare = vec![
        field("flag", Expr::Literal(Literal::Boolean)),
        field("count", name("n", 50)),
        field("handle", name("p", 53)),
    ];
    let error = type_record_init(&mut typed, &resolved, context(), &bare, Some(record)).unwrap_err();
    assert_eq!(error.kind(), TypecheckErrorKind::Ownership);
    assert_eq!(
        error.message(),
        "an owned value assigned to field 'handle' must state its operation: use '[mov]', '[cpy]', or '[cln]'"
    );
    assert_eq!(error.diagnostic_location(), Some(&at(53)));
    assert_eq!(typed.moved_binding_origin(SymbolId(13)), None);

    let fields = vec![
        field("flag", Expr::Literal(Literal::Boolean)),
        field("count", name("n", 50)),
        field(
            "handle",
            Expr::OwnershipOp { options: vec![OwnershipOption::Move], operand: Box::new(name("p", 53)) },
        ),
    ];
    let typed_expr = type_record_init(&mut typed, &resolved, context(), &fields, Some(record)).unwrap();
    assert_eq!(typed_expr.value_type, Some(record));
    assert_eq!(typed_expr.recoverable_effect, None);
    assert_eq!(typed.moved_binding_origin(SymbolId(13)), Some(&at(53)));
    assert_eq!(typed.moved_binding_origin(SymbolId(10)), None);
}

#[test]
fn a_record_initializer_needs_an_expected_record_type() {
    let resolved = resolution();
    let (mut typed, int, _) = program(TypecheckCapabilityModel::Std);
    let fields = vec![field("count", name("n", 50))];
    let error = type_record_init(&mut typed, &resolved, context(), &fields, None).unwrap_err();
    assert_eq!(error.kind(), TypecheckErrorKind::Unsupported);
    assert_eq!(error.message(), "record initializers require an expected record type in V1");
    assert_eq!(error.diagnostic_location(), Some(&at(50)));

    let error = type_record_init(&mut typed, &resolved, context(), &fields, Some(int)).unwrap_err();
    assert_eq!(error.kind(), TypecheckErrorKind::InvalidInput);
    assert_eq!(error.message(), "record initializer requires a record expected type, got 'int'");
}

#[test]
fn a_record_initializer_refuses_unknown_and_repeated_fields() {
    let resolved = resolution();
    let (mut typed, _, _) = program(TypecheckCapabilityModel::Std);
    let record = point(&mut typed);
    let unknown = vec![field("size", name("n", 50))];
    let error = type_record_init(&mut typed, &resolved, context(), &unknown, Some(record)).unwrap_err();
    assert_eq!(error.kind(), TypecheckErrorKind::InvalidInput);
    assert_eq!(error.message(), "record initializer does not define a field named 'size'");
    assert_eq!(error.diagnostic_location(), Some(&at(50)));

    let repeated = vec![field("count", name("n", 50)), field("count", Expr::Literal(Literal::Integer))];
    let error = type_record_init(&mut typed, &resolved, context(), &repeated, Some(record)).unwrap_err();
    assert_eq!(error.message(), "record initializer repeats the field 'count'");
}

#[test]
fn a_record_initializer_lists_missing_fields_unless_defaulted() {
    let resolved = resolution();
    let (mut typed, _, _) = program(TypecheckCapabilityModel::Std);
    let record = point(&mut typed);
    let fields = vec![field("count", name("n", 50))];
    let error = type_record_init(&mut typed, &resolved, context(), &fields, Some(record)).unwrap_err();
    assert_eq!(error.kind(), TypecheckErrorKind::IncompatibleType);
    assert_eq!(error.message(), "record initializer is missing required fields: flag, handle");
    assert_eq!(error.diagnostic_location(), Some(&at(50)));

    let int = typed.intern_type(CheckedType::Builtin(BuiltinType::Int(IntWidth::DEFAULT)));
    typed.set_record_layout(
        record,
        vec![
            RecordFieldLayout { name: "count".to_string(), type_id: int, default: None },
            RecordFieldLayout { name: "flag".to_string(), type_id: int, default: Some(SyntaxNodeId(90)) },
            RecordFieldLayout { name: "handle".to_string(), type_id: int, default: None },
        ],
    );
    let error = type_record_init(&mut typed, &resolved, context(), &fields, Some(record)).unwrap_err();
    assert_eq!(error.message(), "record initializer is missing required fields: handle");
}

#[test]
fn a_record_field_value_must_fit_its_field() {
    let resolved = resolution();
    let (mut typed, _, _) = program(TypecheckCapabilityModel::Std);
    let record = point(&mut typed);
    let fields = vec![
        field("flag", name("n", 50)),
        field("count", name("n", 50)),
        field("handle", name("p", 53)),
    ];
    let error = type_record_init(&mut typed, &resolved, context(), &fields, Some(record)).unwrap_err();
    assert_eq!(error.kind(), TypecheckErrorKind::IncompatibleType);
    assert_eq!(error.message(), "record field 'flag' expects 'bol' but got 'int'");
    assert_eq!(error.diagnostic_location(), Some(&at(50)));
    assert_eq!(typed.moved_binding_origin(SymbolId(13)), None);
}

#[test]
fn a_failing_record_field_value_is_placed_at_the_field() {
    let resolved = resolution();
    let (mut typed, _, _) = program(TypecheckCapabilityModel::Std);
    let record = point(&mut typed);
    let compared = Expr::BinaryOp {
        op: BinaryOperator::Eq,
        left: Box::new(name("n", 50)),
        right: Box::new(name("s", 51)),
    };
    let fields = vec![field("flag", compared)];
    let error = type_record_init(&mut typed, &resolved, context(), &fields, Some(record)).unwrap_err();
    assert_eq!(error.message(), "binary operator 'Eq' is not valid for 'int' and 'str'");
    assert_eq!(error.diagnostic_location(), Some(&at(50)));
}
