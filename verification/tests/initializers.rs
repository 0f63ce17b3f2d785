use lib::config::TypecheckCapabilityModel;
use lib::errors::TypecheckErrorKind;
use lib::exprs::{ErrorCallMode, TypeContext};
use lib::ids::{ReferenceId, ScopeId, SourceUnitId, SymbolId, SyntaxNodeId, SyntaxOrigin};
use lib::initializers::type_binding_initializer;
use lib::model::{TypedProgram, TypedReference, TypedSymbol};
use lib::resolution::{
    ReferenceKind, Resolution, ResolvedReference, ResolvedScope, ResolvedSymbol, SymbolKind,
};
use lib::sorted_map::SortedMap;
use lib::types::{BuiltinType, CheckedType, CheckedTypeId};
use lib::walk::{Expr, Literal, UnaryOperator};
use lib::widths::IntWidth;

fn at(line: usize) -> SyntaxOrigin {
    SyntaxOrigin { file: None, line, column: 2, length: 1 }
}

/// `n` (symbol 10, an `int`) is used at node 50, and `s` (symbol 11, a
/// `str`) at node 51.
fn resolution() -> Resolution {
    let mut resolved = Resolution::new();
    resolved.scopes.insert(ScopeId(1), ResolvedScope { parent: None, routine: true });
    for (id, name) in [(10, "n"), (11, "s"), (12, "o"), (13, "p"), (14, "w")] {
        resolved.symbols.insert(
            SymbolId(id),
            ResolvedSymbol {
                name: name.to_string(),
                kind: SymbolKind::ValueBinding,
                source_unit: SourceUnitId(0),
                scope: ScopeId(1),
                origin: None,
                mounted: false,
                is_mutable: false,
            },
        );
    }
    resolved.symbols.insert(
        SymbolId(20),
        ResolvedSymbol {
            name: "x".to_string(),
            kind: SymbolKind::ValueBinding,
            source_unit: SourceUnitId(0),
            scope: ScopeId(1),
            origin: Some(at(70)),
            mounted: false,
            is_mutable: false,
        },
    );
    for (reference, node, symbol) in [(0, 50, 10), (1, 51, 11), (2, 52, 12), (3, 53, 13), (4, 54, 14)] {
        resolved.references.insert(
            ReferenceId(reference),
            ResolvedReference {
                kind: ReferenceKind::Identifier,
                syntax_id: Some(SyntaxNodeId(node)),
                source_unit: SourceUnitId(0),
                resolved: Some(SymbolId(symbol)),
            },
        );
        resolved.origins.insert(SyntaxNodeId(node), at(node));
    }
    resolved
}

fn symbol(id: usize, declared_type: CheckedTypeId) -> TypedSymbol {
    TypedSymbol {
        symbol_id: SymbolId(id),
        kind: SymbolKind::ValueBinding,
        scope_id: ScopeId(1),
        source_unit_id: SourceUnitId(0),
        declared_type: Some(declared_type),
        receiver_type: None,
        param_defaults: Vec::new(),
        generic_params: Vec::new(),
        generic_constraints: SortedMap::new(),
        is_mutable: false,
        is_mutex: false,
        is_mutex_guard: false,
        is_channel_sender_capture: false,
        channel_receiver_params: SortedMap::new(),
    }
}

fn context() -> TypeContext {
    TypeContext {
        source_unit_id: SourceUnitId(0),
        scope_id: ScopeId(1),
        routine_return_type: None,
        routine_error_type: None,
        error_call_mode: ErrorCallMode::Propagate,
        processor_task_call: None,
        allow_mutex_handle: false,
        repeating_loop_scope: None,
        inside_deferred_block: false,
        inside_error_deferred_block: false,
        field_projection_root: false,
    }
}

/// A program under `model` with `n: int` and `s: str`.
fn program(model: TypecheckCapabilityModel) -> (TypedProgram, CheckedTypeId, CheckedTypeId) {
    let mut typed = TypedProgram::with_model(model);
    let int = typed.intern_type(CheckedType::Builtin(BuiltinType::Int(IntWidth::DEFAULT)));
    let text = typed.intern_type(CheckedType::Builtin(BuiltinType::Str));
    typed.insert_typed_symbol(symbol(10, int));
    typed.insert_typed_symbol(symbol(11, text));
    let optional = typed.intern_type(CheckedType::Optional { inner: int });
    typed.insert_typed_symbol(symbol(12, optional));
    let pointer = typed.intern_type(CheckedType::Pointer {
        target: int,
        shared: false,
        weak: false,
        sync: false,
        raw: false,
        mutable: false,
    });
    typed.insert_typed_symbol(symbol(13, pointer));
    let weak = typed.intern_type(CheckedType::Pointer {
        target: int,
        shared: false,
        weak: true,
        sync: false,
        raw: false,
        mutable: false,
    });
    typed.insert_typed_symbol(symbol(14, weak));
    for reference in [0, 1, 2, 3, 4] {
        typed.insert_typed_reference(TypedReference {
            reference_id: ReferenceId(reference),
            kind: ReferenceKind::Identifier,
            source_unit_id: SourceUnitId(0),
            resolved_type: None,
            recoverable_effect: None,
        });
    }
    (typed, int, text)
}

fn name(name: &str, node: usize) -> Expr<'_> {
    Expr::Identifier { name, syntax_id: Some(SyntaxNodeId(node)) }
}


/// `x` (symbol 20) declared with `declared_type`, or without one.
fn binding(typed: &mut TypedProgram, declared_type: Option<CheckedTypeId>) {
    let mut x = symbol(20, CheckedTypeId(0));
    x.declared_type = declared_type;
    typed.insert_typed_symbol(x);
}

fn declare(
    typed: &mut TypedProgram,
    name: &str,
    value: Option<&Expr>,
    heap_owned: bool,
    borrowing: bool,
) -> Result<lib::exprs::TypedExpr, lib::errors::TypecheckError> {
    type_binding_initializer(
        typed,
        &resolution(),
        context(),
        name,
        value,
        SymbolKind::ValueBinding,
        heap_owned,
        borrowing,
        false,
    )
}

#[test]
fn a_declared_binding_takes_an_assignable_initializer() {
    let (mut typed, int, _) = program(TypecheckCapabilityModel::Std);
    binding(&mut typed, Some(int));
    let value = Expr::Literal(Literal::Integer);
    let typed_expr = declare(&mut typed, "x", Some(&value), false, false).unwrap();
    assert_eq!(typed_expr.value_type, Some(int));

    let wrong = Expr::Literal(Literal::Boolean);
    let error = declare(&mut typed, "x", Some(&wrong), false, false).unwrap_err();
    assert_eq!(error.kind(), TypecheckErrorKind::IncompatibleType);
    assert_eq!(error.message(), "initializer for 'x' expects 'int' but got 'bol'");
}

#[test]
fn an_undeclared_binding_gets_the_type_of_its_initializer() {
    let (mut typed, int, _) = program(TypecheckCapabilityModel::Std);
    binding(&mut typed, None);
    let typed_expr = declare(&mut typed, "x", Some(&name("n", 50)), false, false).unwrap();
    assert_eq!(typed_expr.value_type, Some(int));
    assert_eq!(typed.typed_symbol(SymbolId(20)).unwrap().declared_type, Some(int));
}

#[test]
fn a_heap_owning_binding_has_the_owned_type_and_needs_heap_support() {
    let (mut typed, int, _) = program(TypecheckCapabilityModel::Std);
    binding(&mut typed, None);
    let value = Expr::Literal(Literal::Integer);
    let typed_expr = declare(&mut typed, "x", Some(&value), true, false).unwrap();
    let owned = typed.intern_type(CheckedType::Owned { inner: int });
    assert_eq!(typed_expr.value_type, Some(owned));
    assert_eq!(typed.typed_symbol(SymbolId(20)).unwrap().declared_type, Some(owned));

    let (mut core, _, _) = program(TypecheckCapabilityModel::Core);
    binding(&mut core, None);
    let error = declare(&mut core, "x", Some(&value), true, false).unwrap_err();
    assert_eq!(error.kind(), TypecheckErrorKind::Unsupported);
    assert_eq!(
        error.message(),
        "heap allocation binding requires heap support and is unavailable in 'fol_model = core'"
    );
    assert_eq!(error.diagnostic_location(), Some(&at(70)));
}

#[test]
fn a_borrow_binding_lends_from_its_owner() {
    let (mut typed, int, _) = program(TypecheckCapabilityModel::Std);
    binding(&mut typed, None);
    let loan = Expr::UnaryOp { op: UnaryOperator::BorrowFrom, operand: Box::new(name("n", 50)) };
    let typed_expr = declare(&mut typed, "x", Some(&loan), false, true).unwrap();
    let borrowed = typed.intern_type(CheckedType::Borrowed { inner: int, mutable: false });
    assert_eq!(typed_expr.value_type, Some(borrowed));
    assert_eq!(typed.typed_symbol(SymbolId(20)).unwrap().declared_type, Some(borrowed));
    assert_eq!(typed.borrows_for_owner(SymbolId(10)).len(), 1);

    let error = declare(&mut typed, "x", None, false, true).unwrap_err();
    assert_eq!(error.kind(), TypecheckErrorKind::Uninitialized);
    assert_eq!(
        error.message(),
        "borrow binding 'x' requires an initializer; a 'var[bor]' declaration must identify the owner it loans from"
    );
}

#[test]
fn an_owned_value_named_bare_must_state_its_operation() {
    let (mut typed, _, _) = program(TypecheckCapabilityModel::Std);
    let pointer = typed.typed_symbol(SymbolId(13)).unwrap().declared_type;
    binding(&mut typed, pointer);
    let error = declare(&mut typed, "x", Some(&name("p", 53)), false, false).unwrap_err();
    assert_eq!(error.kind(), TypecheckErrorKind::Ownership);
    assert_eq!(
        error.message(),
        "an owned value transferred into 'x' must state its operation: use '[mov]', '[cpy]', or '[cln]'"
    );
    assert_eq!(error.diagnostic_location(), Some(&at(53)));
}

#[test]
fn an_unresolved_binding_types_its_initializer_alone() {
    let (mut typed, int, _) = program(TypecheckCapabilityModel::Std);
    let value = Expr::Literal(Literal::Integer);
    let typed_expr = declare(&mut typed, "other", Some(&value), false, false).unwrap();
    assert_eq!(typed_expr.value_type, Some(int));
    assert_eq!(declare(&mut typed, "other", None, false, false).unwrap().value_type, None);
}
