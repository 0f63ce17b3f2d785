use lib::config::TypecheckCapabilityModel;
use lib::errors::TypecheckErrorKind;
use lib::exprs::{ErrorCallMode, TypeContext};
use lib::ids::{ReferenceId, ScopeId, SourceUnitId, SymbolId, SyntaxNodeId, SyntaxOrigin};
use lib::model::{TypedProgram, TypedReference, TypedSymbol};
use lib::operators::BinaryOperator;
use lib::resolution::{
    ReferenceKind, Resolution, ResolvedReference, ResolvedScope, ResolvedSymbol, SymbolKind,
};
use lib::sorted_map::SortedMap;
use lib::types::{BuiltinType, CheckedType, CheckedTypeId};
use lib::walk::{
    type_binary_op, type_literal, type_ownership_op, OwnershipOption, type_node, type_node_with_expectation, type_unary_op, Expr, Literal, UnaryOperator,
};
use lib::widths::{CharEncoding, FloatWidth, IntWidth};

fn at(line: usize) -> SyntaxOrigin {
    SyntaxOrigin { file: None, line, column: 2, length: 1 }
}

/// `n` (symbol 10, an `int`) is used at node 50, and `s` (symbol 11, a
/// `str`) at node 51.
fn resolution() -> Resolution {
    let mut resolved = Resolution::new();
    resolved.scopes.insert(ScopeId(1), ResolvedScope { parent: None, routine: true });
    for (id, name) in [(10, "n"), (11, "s"), (12, "o"), (13, "p"), (14, "w")] {
        resolved.symbols.insert(
            SymbolId(id),
            ResolvedSymbol {
                name: name.to_string(),
                kind: SymbolKind::ValueBinding,
                source_unit: SourceUnitId(0),
                scope: ScopeId(1),
                origin: None,
                mounted: false,
                is_mutable: false,
            },
        );
    }
    for (reference, node, symbol) in [(0, 50, 10), (1, 51, 11), (2, 52, 12), (3, 53, 13), (4, 54, 14)] {
        resolved.references.insert(
            ReferenceId(reference),
            ResolvedReference {
                kind: ReferenceKind::Identifier,
                syntax_id: Some(SyntaxNodeId(node)),
                source_unit: SourceUnitId(0),
                resolved: Some(SymbolId(symbol)),
            },
        );
        resolved.origins.insert(SyntaxNodeId(node), at(node));
    }
    resolved
}

fn symbol(id: usize, declared_type: CheckedTypeId) -> TypedSymbol {
    TypedSymbol {
        symbol_id: SymbolId(id),
        kind: SymbolKind::ValueBinding,
        scope_id: ScopeId(1),
        source_unit_id: SourceUnitId(0),
        declared_type: Some(declared_type),
        receiver_type: None,
        param_defaults: Vec::new(),
        generic_params: Vec::new(),
        generic_constraints: SortedMap::new(),
        is_mutable: false,
        is_mutex: false,
        is_mutex_guard: false,
        is_channel_sender_capture: false,
        channel_receiver_params: SortedMap::new(),
    }
}

fn context() -> TypeContext {
    TypeContext {
        source_unit_id: SourceUnitId(0),
        scope_id: ScopeId(1),
        routine_return_type: None,
        routine_error_type: None,
        error_call_mode: ErrorCallMode::Propagate,
        processor_task_call: None,
        allow_mutex_handle: false,
        repeating_loop_scope: None,
        inside_deferred_block: false,
        inside_error_deferred_block: false,
        field_projection_root: false,
    }
}

/// A program under `model` with `n: int` and `s: str`.
fn program(model: TypecheckCapabilityModel) -> (TypedProgram, CheckedTypeId, CheckedTypeId) {
    let mut typed = TypedProgram::with_model(model);
    let int = typed.intern_type(CheckedType::Builtin(BuiltinType::Int(IntWidth::DEFAULT)));
    let text = typed.intern_type(CheckedType::Builtin(BuiltinType::Str));
    typed.insert_typed_symbol(symbol(10, int));
    typed.insert_typed_symbol(symbol(11, text));
    let optional = typed.intern_type(CheckedType::Optional { inner: int });
    typed.insert_typed_symbol(symbol(12, optional));
    let pointer = typed.intern_type(CheckedType::Pointer {
        target: int,
        shared: false,
        weak: false,
        sync: false,
        raw: false,
        mutable: false,
    });
    typed.insert_typed_symbol(symbol(13, pointer));
    let weak = typed.intern_type(CheckedType::Pointer {
        target: int,
        shared: false,
        weak: true,
        sync: false,
        raw: false,
        mutable: false,
    });
    typed.insert_typed_symbol(symbol(14, weak));
    for reference in [0, 1, 2, 3, 4] {
        typed.insert_typed_reference(TypedReference {
            reference_id: ReferenceId(reference),
            kind: ReferenceKind::Identifier,
            source_unit_id: SourceUnitId(0),
            resolved_type: None,
            recoverable_effect: None,
        });
    }
    (typed, int, text)
}

fn name(name: &str, node: usize) -> Expr<'_> {
    Expr::Identifier { name, syntax_id: Some(SyntaxNodeId(node)) }
}

fn binary<'a>(op: BinaryOperator, left: Expr<'a>, right: Expr<'a>) -> Expr<'a> {
    Expr::BinaryOp { op, left: Box::new(left), right: Box::new(right) }
}

#[test]
fn literals_get_their_builtin_types() {
    let resolved = resolution();
    let (mut typed, int, text) = program(TypecheckCapabilityModel::Std);
    let found = type_node(&mut typed, &resolved, context(), &Expr::Literal(Literal::Integer)).unwrap();
    assert_eq!(found.value_type, Some(int));
    let found = type_node(&mut typed, &resolved, context(), &Expr::Literal(Literal::String)).unwrap();
    assert_eq!(found.value_type, Some(text));
    let found = type_node(&mut typed, &resolved, context(), &Expr::Literal(Literal::Boolean)).unwrap();
    let bool_id = found.value_type.unwrap();
    assert_eq!(typed.type_table().get(bool_id), Some(&CheckedType::Builtin(BuiltinType::Bool)));
    let found = type_node(&mut typed, &resolved, context(), &Expr::Literal(Literal::Float)).unwrap();
    assert_eq!(
        typed.type_table().get(found.value_type.unwrap()),
        Some(&CheckedType::Builtin(BuiltinType::Float(FloatWidth::DEFAULT)))
    );
}

#[test]
fn a_character_literal_is_a_string_where_a_string_is_expected() {
    let resolved = resolution();
    let (mut typed, _, text) = program(TypecheckCapabilityModel::Std);
    let found = type_node_with_expectation(
        &mut typed,
        &resolved,
        context(),
        &Expr::Literal(Literal::Character),
        Some(text),
    )
    .unwrap();
    assert_eq!(found.value_type, Some(text));
    let found = type_node(&mut typed, &resolved, context(), &Expr::Literal(Literal::Character)).unwrap();
    assert_eq!(
        typed.type_table().get(found.value_type.unwrap()),
        Some(&CheckedType::Builtin(BuiltinType::Char(CharEncoding::DEFAULT)))
    );
}

#[test]
fn string_literals_need_the_heap() {
    let resolved = resolution();
    let (mut typed, _, text) = program(TypecheckCapabilityModel::Core);
    let error = type_node(&mut typed, &resolved, context(), &Expr::Literal(Literal::String)).unwrap_err();
    assert_eq!(error.kind(), TypecheckErrorKind::Unsupported);
    assert_eq!(
        error.message(),
        "string literals require heap support and are unavailable in 'fol_model = core'"
    );
    let error = type_node_with_expectation(
        &mut typed,
        &resolved,
        context(),
        &Expr::Literal(Literal::Character),
        Some(text),
    )
    .unwrap_err();
    assert_eq!(error.kind(), TypecheckErrorKind::Unsupported);
}

#[test]
fn comments_have_no_value_and_commented_nodes_keep_theirs() {
    let resolved = resolution();
    let (mut typed, int, _) = program(TypecheckCapabilityModel::Std);
    let found = type_node(&mut typed, &resolved, context(), &Expr::Comment).unwrap();
    assert_eq!(found.value_type, None);
    let commented = Expr::Commented(Box::new(name("n", 50)));
    let found = type_node(&mut typed, &resolved, context(), &commented).unwrap();
    assert_eq!(found.value_type, Some(int));
}

#[test]
fn arithmetic_on_integers_gives_an_integer() {
    let resolved = resolution();
    let (mut typed, int, _) = program(TypecheckCapabilityModel::Std);
    let sum = binary(BinaryOperator::Add, name("n", 50), Expr::Literal(Literal::Integer));
    let found = type_node(&mut typed, &resolved, context(), &sum).unwrap();
    assert_eq!(found.value_type, Some(int));
    assert_eq!(found.recoverable_effect, None);
    assert_eq!(typed.typed_node(SyntaxNodeId(50)).unwrap().inferred_type, Some(int));
}

#[test]
fn strings_concatenate() {
    let resolved = resolution();
    let (mut typed, _, text) = program(TypecheckCapabilityModel::Std);
    let joined = type_binary_op(
        &mut typed,
        &resolved,
        context(),
        BinaryOperator::Add,
        &name("s", 51),
        &Expr::Literal(Literal::String),
    )
    .unwrap();
    assert_eq!(joined.value_type, Some(text));
}

#[test]
fn comparisons_of_equal_types_give_bool() {
    let resolved = resolution();
    let (mut typed, _, _) = program(TypecheckCapabilityModel::Std);
    for op in [BinaryOperator::Eq, BinaryOperator::Ne, BinaryOperator::Lt, BinaryOperator::Ge] {
        let found = type_binary_op(
            &mut typed,
            &resolved,
            context(),
            op,
            &name("n", 50),
            &Expr::Literal(Literal::Integer),
        )
        .unwrap();
        assert_eq!(
            typed.type_table().get(found.value_type.unwrap()),
            Some(&CheckedType::Builtin(BuiltinType::Bool))
        );
    }
    let both = binary(
        BinaryOperator::And,
        Expr::Literal(Literal::Boolean),
        binary(BinaryOperator::Lt, name("n", 50), Expr::Literal(Literal::Integer)),
    );
    let found = type_node(&mut typed, &resolved, context(), &both).unwrap();
    assert_eq!(
        typed.type_table().get(found.value_type.unwrap()),
        Some(&CheckedType::Builtin(BuiltinType::Bool))
    );
}

#[test]
fn mismatched_operands_are_refused_by_name() {
    let resolved = resolution();
    let (mut typed, _, _) = program(TypecheckCapabilityModel::Std);
    let error = type_binary_op(
        &mut typed,
        &resolved,
        context(),
        BinaryOperator::And,
        &name("n", 50),
        &Expr::Literal(Literal::Integer),
    )
    .unwrap_err();
    assert_eq!(error.kind(), TypecheckErrorKind::InvalidInput);
    assert_eq!(error.message(), "binary operator 'And' is not valid for 'int' and 'int'");
    let error = type_binary_op(
        &mut typed,
        &resolved,
        context(),
        BinaryOperator::Eq,
        &name("n", 50),
        &name("s", 51),
    )
    .unwrap_err();
    assert_eq!(error.message(), "binary operator 'Eq' is not valid for 'int' and 'str'");
    let error = type_binary_op(
        &mut typed,
        &resolved,
        context(),
        BinaryOperator::Sub,
        &Expr::Literal(Literal::Float),
        &Expr::Literal(Literal::Integer),
    )
    .unwrap_err();
    assert_eq!(error.message(), "binary operator 'Sub' is not valid for 'flt' and 'int'");
}

#[test]
fn membership_and_type_tests_are_not_yet_supported() {
    let resolved = resolution();
    let (mut typed, _, _) = program(TypecheckCapabilityModel::Std);
    let error = type_binary_op(
        &mut typed,
        &resolved,
        context(),
        BinaryOperator::In,
        &name("n", 50),
        &name("s", 51),
    )
    .unwrap_err();
    assert_eq!(error.kind(), TypecheckErrorKind::Unsupported);
    assert_eq!(error.message(), "membership operators 'in' and 'has' are not yet supported");
    assert_eq!(error.diagnostic_location(), Some(&at(50)));
    let error = type_binary_op(
        &mut typed,
        &resolved,
        context(),
        BinaryOperator::Is,
        &Expr::Literal(Literal::Integer),
        &name("s", 51),
    )
    .unwrap_err();
    assert_eq!(error.message(), "type testing operator 'is' is not yet supported");
    assert_eq!(error.diagnostic_location(), Some(&at(51)));
}

#[test]
fn an_operand_that_fails_to_type_stops_the_operator() {
    let resolved = resolution();
    let (mut typed, _, _) = program(TypecheckCapabilityModel::Std);
    let error = type_binary_op(
        &mut typed,
        &resolved,
        context(),
        BinaryOperator::Add,
        &name("zz", 77),
        &name("n", 50),
    )
    .unwrap_err();
    assert_eq!(error.message(), "reference 'zz' is missing from resolver output");
    assert!(typed.typed_node(SyntaxNodeId(50)).is_none());
}

#[test]
fn negation_keeps_numbers_and_not_keeps_bools() {
    let resolved = resolution();
    let (mut typed, int, _) = program(TypecheckCapabilityModel::Std);
    let found = type_unary_op(&mut typed, &resolved, context(), UnaryOperator::Neg, &name("n", 50), None).unwrap();
    assert_eq!(found.value_type, Some(int));
    let found = type_unary_op(
        &mut typed,
        &resolved,
        context(),
        UnaryOperator::Neg,
        &Expr::Literal(Literal::Float),
        None,
    )
    .unwrap();
    assert_eq!(
        typed.type_table().get(found.value_type.unwrap()),
        Some(&CheckedType::Builtin(BuiltinType::Float(FloatWidth::DEFAULT)))
    );
    let negated = Expr::UnaryOp {
        op: UnaryOperator::Not,
        operand: Box::new(binary(BinaryOperator::Lt, name("n", 50), Expr::Literal(Literal::Integer))),
    };
    let found = type_node(&mut typed, &resolved, context(), &negated).unwrap();
    assert_eq!(
        typed.type_table().get(found.value_type.unwrap()),
        Some(&CheckedType::Builtin(BuiltinType::Bool))
    );
}

#[test]
fn unary_operators_refuse_other_operands() {
    let resolved = resolution();
    let (mut typed, _, _) = program(TypecheckCapabilityModel::Std);
    let error = type_unary_op(&mut typed, &resolved, context(), UnaryOperator::Not, &name("n", 50), None)
        .unwrap_err();
    assert_eq!(error.kind(), TypecheckErrorKind::InvalidInput);
    assert_eq!(error.message(), "unary operator 'Not' is not valid for 'int'");
    let error = type_unary_op(&mut typed, &resolved, context(), UnaryOperator::Neg, &name("s", 51), None)
        .unwrap_err();
    assert_eq!(error.message(), "unary operator 'Neg' is not valid for 'str'");
    let error = type_unary_op(&mut typed, &resolved, context(), UnaryOperator::Neg, &Expr::Comment, None)
        .unwrap_err();
    assert_eq!(error.message(), "unary operator operand does not have a type");
}

#[test]
fn a_qualified_name_without_a_syntax_node_is_refused() {
    let resolved = resolution();
    let (mut typed, _, _) = program(TypecheckCapabilityModel::Std);
    let path = Expr::QualifiedIdentifier { path: "pkg::n", syntax_id: None };
    let error = type_node(&mut typed, &resolved, context(), &path).unwrap_err();
    assert_eq!(error.message(), "qualified identifier 'pkg::n' does not retain a syntax id");
}

#[test]
fn nil_takes_an_expected_optional_or_error_shell() {
    let resolved = resolution();
    let (mut typed, int, _) = program(TypecheckCapabilityModel::Std);
    let optional = typed.intern_type(CheckedType::Optional { inner: int });
    let found = type_node_with_expectation(
        &mut typed,
        &resolved,
        context(),
        &Expr::Literal(Literal::Nil),
        Some(optional),
    )
    .unwrap();
    assert_eq!(found.value_type, Some(optional));
    let error = type_node(&mut typed, &resolved, context(), &Expr::Literal(Literal::Nil)).unwrap_err();
    assert_eq!(error.kind(), TypecheckErrorKind::InvalidInput);
    assert_eq!(
        error.message(),
        "nil literals require an expected opt[...] or err[...] shell type in V1"
    );
    let error = type_node_with_expectation(
        &mut typed,
        &resolved,
        context(),
        &Expr::Literal(Literal::Nil),
        Some(int),
    )
    .unwrap_err();
    assert_eq!(
        error.message(),
        "nil literals require an expected opt[...] or err[...] shell type in V1"
    );
}

#[test]
fn literal_typing_maps_v1_scalar_literals_to_builtin_types() {
    let (mut typed, _, _) = program(TypecheckCapabilityModel::Std);
    let int_type = type_literal(&mut typed, Literal::Integer, None).unwrap().value_type.unwrap();
    assert_eq!(
        typed.type_table().get(int_type),
        Some(&CheckedType::Builtin(BuiltinType::Int(IntWidth::DEFAULT)))
    );
    let str_type = type_literal(&mut typed, Literal::String, None).unwrap().value_type.unwrap();
    assert_eq!(typed.type_table().get(str_type), Some(&CheckedType::Builtin(BuiltinType::Str)));
}

#[test]
fn unwrap_gives_the_payload_of_a_shell() {
    let resolved = resolution();
    let (mut typed, int, _) = program(TypecheckCapabilityModel::Std);
    let found = type_unary_op(&mut typed, &resolved, context(), UnaryOperator::Unwrap, &name("o", 52), None)
        .unwrap();
    assert_eq!(found.value_type, Some(int));
    let error = type_unary_op(&mut typed, &resolved, context(), UnaryOperator::Unwrap, &name("n", 50), None)
        .unwrap_err();
    assert_eq!(error.kind(), TypecheckErrorKind::InvalidInput);
    assert_eq!(error.message(), "unwrap requires an opt[...] or err[...] shell with a value type in V1");
    assert_eq!(error.diagnostic_location(), Some(&at(50)));
}

#[test]
fn pointers_are_built_and_read() {
    let resolved = resolution();
    let (mut typed, int, _) = program(TypecheckCapabilityModel::Std);
    let built = type_unary_op(&mut typed, &resolved, context(), UnaryOperator::Ref, &name("n", 50), None)
        .unwrap();
    assert_eq!(
        typed.type_table().get(built.value_type.unwrap()),
        Some(&CheckedType::Pointer {
            target: int,
            shared: false,
            weak: false,
            sync: false,
            raw: false,
            mutable: false,
        })
    );
    let shared = typed.intern_type(CheckedType::Pointer {
        target: int,
        shared: true,
        weak: false,
        sync: true,
        raw: false,
        mutable: false,
    });
    let built = type_unary_op(
        &mut typed,
        &resolved,
        context(),
        UnaryOperator::Ref,
        &name("n", 50),
        Some(shared),
    )
    .unwrap();
    assert_eq!(built.value_type, Some(shared));
    let read = type_unary_op(&mut typed, &resolved, context(), UnaryOperator::Deref, &name("p", 53), None)
        .unwrap();
    assert_eq!(read.value_type, Some(int));
    let error = type_unary_op(&mut typed, &resolved, context(), UnaryOperator::Deref, &name("n", 50), None)
        .unwrap_err();
    assert_eq!(error.message(), "unary operator 'Deref' is not valid for 'int'");
    let (mut core, _, _) = program(TypecheckCapabilityModel::Core);
    let error = type_unary_op(&mut core, &resolved, context(), UnaryOperator::Ref, &name("n", 50), None)
        .unwrap_err();
    assert_eq!(error.kind(), TypecheckErrorKind::Unsupported);
    assert_eq!(
        error.message(),
        "pointer construction requires heap support; choose fol_model = 'memo'"
    );
}

fn ownership(
    typed: &mut TypedProgram,
    options: Vec<OwnershipOption>,
    operand: &Expr,
) -> Result<lib::exprs::TypedExpr, lib::errors::TypecheckError> {
    type_ownership_op(typed, &resolution(), context(), &options, operand)
}

#[test]
fn an_ownership_operation_names_exactly_one_source() {
    let (mut typed, _, _) = program(TypecheckCapabilityModel::Std);
    let error = ownership(&mut typed, vec![], &name("n", 50)).unwrap_err();
    assert_eq!(error.kind(), TypecheckErrorKind::InvalidInput);
    assert_eq!(
        error.message(),
        "an ownership operation needs exactly one source: '[mov]', '[cpy]', '[cln]', '[bor]', '[weak]', '[upg]', or '[fin]'"
    );
    assert_eq!(error.diagnostic_location(), Some(&at(50)));
    let error = ownership(&mut typed, vec![OwnershipOption::Mutable, OwnershipOption::Move], &name("n", 50))
        .unwrap_err();
    assert_eq!(error.message(), "'[mut]' is only valid combined with '[bor]' as '[mut, bor]'");
    let error = ownership(&mut typed, vec![OwnershipOption::Borrow, OwnershipOption::Move], &name("n", 50))
        .unwrap_err();
    assert_eq!(
        error.message(),
        "'[bor]' cannot be combined with another source operation; use '[bor]' or '[mut, bor]'"
    );
}

#[test]
fn value_sources_copy_move_allocate_and_finalize() {
    let (mut typed, int, _) = program(TypecheckCapabilityModel::Std);
    let copied = ownership(&mut typed, vec![OwnershipOption::Copy], &name("n", 50)).unwrap();
    assert_eq!(copied.value_type, Some(int));
    assert!(typed.moved_binding_origin(SymbolId(10)).is_none());
    let allocated =
        ownership(&mut typed, vec![OwnershipOption::New, OwnershipOption::Clone], &name("n", 50)).unwrap();
    assert_eq!(
        typed.type_table().get(allocated.value_type.unwrap()),
        Some(&CheckedType::Owned { inner: int })
    );
    let finalized = ownership(&mut typed, vec![OwnershipOption::Finalize], &Expr::Literal(Literal::Integer)).unwrap();
    assert_eq!(finalized.value_type, None);
    let moved = ownership(&mut typed, vec![OwnershipOption::Move], &name("n", 50)).unwrap();
    assert_eq!(moved.value_type, Some(int));
    assert_eq!(typed.moved_binding_origin(SymbolId(10)), Some(&at(50)));
    let (mut core, _, _) = program(TypecheckCapabilityModel::Core);
    let error = ownership(&mut core, vec![OwnershipOption::New, OwnershipOption::Move], &name("n", 50)).unwrap_err();
    assert_eq!(error.kind(), TypecheckErrorKind::Unsupported);
    assert_eq!(error.message(), "heap allocation requires heap support; choose fol_model = 'memo'");
}

#[test]
fn loans_borrow_bindings_and_temporaries() {
    let (mut typed, int, _) = program(TypecheckCapabilityModel::Std);
    let loan = ownership(&mut typed, vec![OwnershipOption::Borrow], &name("n", 50)).unwrap();
    assert_eq!(
        typed.type_table().get(loan.value_type.unwrap()),
        Some(&CheckedType::Borrowed { inner: int, mutable: false })
    );
    let error = ownership(
        &mut typed,
        vec![OwnershipOption::Mutable, OwnershipOption::Borrow],
        &name("n", 50),
    )
    .unwrap_err();
    assert_eq!(error.kind(), TypecheckErrorKind::BorrowMutability);
    assert_eq!(error.message(), "mutable borrow requires an owner declared with 'var[mut]'");
    let temporary = ownership(&mut typed, vec![OwnershipOption::Borrow], &Expr::Literal(Literal::Integer)).unwrap();
    assert_eq!(temporary.value_type, loan.value_type);
    typed.mark_binding_moved(SymbolId(10), at(3));
    let error = ownership(&mut typed, vec![OwnershipOption::Borrow], &name("n", 50)).unwrap_err();
    assert_eq!(error.kind(), TypecheckErrorKind::Ownership);
    assert_eq!(error.message(), "cannot borrow from an owner whose value was already moved");
    assert_eq!(error.related_origins(), &vec![(at(3), "ownership moved here".to_string())]);
}

#[test]
fn weak_handles_and_upgrades_come_from_managed_pointers() {
    let (mut typed, int, _) = program(TypecheckCapabilityModel::Std);
    let error = ownership(&mut typed, vec![OwnershipOption::Weak], &name("p", 53)).unwrap_err();
    assert_eq!(error.message(), "'[weak]' requires a 'ptr[shared, T]' operand to downgrade");
    let upgraded = ownership(&mut typed, vec![OwnershipOption::Upgrade], &name("w", 54)).unwrap();
    let strong = typed.intern_type(CheckedType::Pointer {
        target: int,
        shared: true,
        weak: false,
        sync: false,
        raw: false,
        mutable: false,
    });
    assert_eq!(
        typed.type_table().get(upgraded.value_type.unwrap()),
        Some(&CheckedType::Optional { inner: strong })
    );
    let error = ownership(&mut typed, vec![OwnershipOption::Upgrade], &name("p", 53)).unwrap_err();
    assert_eq!(error.message(), "'[upg]' requires a 'ptr[weak, T]' operand to upgrade");
}

#[test]
fn a_loan_is_given_back_by_its_borrow_binding() {
    let resolved = resolution();
    let (mut typed, _, _) = program(TypecheckCapabilityModel::Std);
    let error = type_unary_op(&mut typed, &resolved, context(), UnaryOperator::GiveBack, &name("s", 51), None)
        .unwrap_err();
    assert_eq!(error.kind(), TypecheckErrorKind::BorrowReturned);
    assert_eq!(error.message(), "'s' is not an active borrow binding");
    assert_eq!(error.diagnostic_location(), Some(&at(51)));
    typed.register_borrow(lib::model::ActiveBorrow {
        owner: SymbolId(10),
        binding: SymbolId(11),
        scope: ScopeId(1),
        mutable: false,
        origin: at(5),
    });
    let done = type_unary_op(&mut typed, &resolved, context(), UnaryOperator::GiveBack, &name("s", 51), None)
        .unwrap();
    assert_eq!(done.value_type, None);
    assert!(typed.active_borrow_binding(SymbolId(11)).is_none());
    let error = type_unary_op(
        &mut typed,
        &resolved,
        context(),
        UnaryOperator::GiveBack,
        &Expr::Literal(Literal::Integer),
        None,
    )
    .unwrap_err();
    assert_eq!(error.message(), "give-back requires a borrow binding identifier");
}

#[test]
fn borrow_from_lends_the_owner_value() {
    let resolved = resolution();
    let (mut typed, int, _) = program(TypecheckCapabilityModel::Std);
    let loan = type_unary_op(&mut typed, &resolved, context(), UnaryOperator::BorrowFrom, &name("n", 50), None)
        .unwrap();
    assert_eq!(
        typed.type_table().get(loan.value_type.unwrap()),
        Some(&CheckedType::Borrowed { inner: int, mutable: false })
    );
    let error = type_unary_op(
        &mut typed,
        &resolved,
        context(),
        UnaryOperator::BorrowFrom,
        &Expr::Literal(Literal::Integer),
        None,
    )
    .unwrap_err();
    assert_eq!(error.message(), "borrow-from requires an identifier owner");
}
