use lib::config::TypecheckCapabilityModel;
use lib::errors::TypecheckErrorKind;
use lib::exits::type_return;
use lib::exprs::{ErrorCallMode, TypeContext};
use lib::ids::{ReferenceId, ScopeId, SourceUnitId, SymbolId, SyntaxNodeId, SyntaxOrigin};
use lib::model::{TypedProgram, TypedReference, TypedSymbol};
use lib::resolution::{
    ReferenceKind, Resolution, ResolvedReference, ResolvedScope, ResolvedSymbol, SymbolKind,
};
use lib::sorted_map::SortedMap;
use lib::types::{BuiltinType, CheckedType, CheckedTypeId};
use lib::walk::{Expr, Literal, UnaryOperator};
use lib::widths::IntWidth;

fn at(line: usize) -> SyntaxOrigin {
    SyntaxOrigin { file: None, line, column: 2, length: 1 }
}

/// `n` (symbol 10, an `int`) is used at node 50, and `s` (symbol 11, a
/// `str`) at node 51.
fn resolution() -> Resolution {
    let mut resolved = Resolution::new();
    resolved.scopes.insert(ScopeId(1), ResolvedScope { parent: None, routine: true });
    for (id, name) in [(10, "n"), (11, "s"), (12, "o"), (13, "p"), (14, "w")] {
        resolved.symbols.insert(
            SymbolId(id),
            ResolvedSymbol {
                name: name.to_string(),
                kind: SymbolKind::ValueBinding,
                source_unit: SourceUnitId(0),
                scope: ScopeId(1),
                origin: None,
                mounted: false,
                is_mutable: false,
            },
        );
    }
    for (reference, node, symbol) in [(0, 50, 10), (1, 51, 11), (2, 52, 12), (3, 53, 13), (4, 54, 14)] {
        resolved.references.insert(
            ReferenceId(reference),
            ResolvedReference {
                kind: ReferenceKind::Identifier,
                syntax_id: Some(SyntaxNodeId(node)),
                source_unit: SourceUnitId(0),
                resolved: Some(SymbolId(symbol)),
            },
        );
        resolved.origins.insert(SyntaxNodeId(node), at(node));
    }
    resolved
}

fn symbol(id: usize, declared_type: CheckedTypeId) -> TypedSymbol {
    TypedSymbol {
        symbol_id: SymbolId(id),
        kind: SymbolKind::ValueBinding,
        scope_id: ScopeId(1),
        source_unit_id: SourceUnitId(0),
        declared_type: Some(declared_type),
        receiver_type: None,
        param_defaults: Vec::new(),
        generic_params: Vec::new(),
        generic_constraints: SortedMap::new(),
        is_mutable: false,
        is_mutex: false,
        is_mutex_guard: false,
        is_channel_sender_capture: false,
        channel_receiver_params: SortedMap::new(),
    }
}

fn context() -> TypeContext {
    TypeContext {
        source_unit_id: SourceUnitId(0),
        scope_id: ScopeId(1),
        routine_return_type: None,
        routine_error_type: None,
        error_call_mode: ErrorCallMode::Propagate,
        processor_task_call: None,
        allow_mutex_handle: false,
        repeating_loop_scope: None,
        inside_deferred_block: false,
        inside_error_deferred_block: false,
        field_projection_root: false,
    }
}

/// A program under `model` with `n: int` and `s: str`.
fn program(model: TypecheckCapabilityModel) -> (TypedProgram, CheckedTypeId, CheckedTypeId) {
    let mut typed = TypedProgram::with_model(model);
    let int = typed.intern_type(CheckedType::Builtin(BuiltinType::Int(IntWidth::DEFAULT)));
    let text = typed.intern_type(CheckedType::Builtin(BuiltinType::Str));
    typed.insert_typed_symbol(symbol(10, int));
    typed.insert_typed_symbol(symbol(11, text));
    let optional = typed.intern_type(CheckedType::Optional { inner: int });
    typed.insert_typed_symbol(symbol(12, optional));
    let pointer = typed.intern_type(CheckedType::Pointer {
        target: int,
        shared: false,
        weak: false,
        sync: false,
        raw: false,
        mutable: false,
    });
    typed.insert_typed_symbol(symbol(13, pointer));
    let weak = typed.intern_type(CheckedType::Pointer {
        target: int,
        shared: false,
        weak: true,
        sync: false,
        raw: false,
        mutable: false,
    });
    typed.insert_typed_symbol(symbol(14, weak));
    for reference in [0, 1, 2, 3, 4] {
        typed.insert_typed_reference(TypedReference {
            reference_id: ReferenceId(reference),
            kind: ReferenceKind::Identifier,
            source_unit_id: SourceUnitId(0),
            resolved_type: None,
            recoverable_effect: None,
        });
    }
    (typed, int, text)
}

fn name(name: &str, node: usize) -> Expr<'_> {
    Expr::Identifier { name, syntax_id: Some(SyntaxNodeId(node)) }
}


fn returning(return_type: Option<CheckedTypeId>) -> TypeContext {
    let mut c = context();
    c.routine_return_type = return_type;
    c
}

#[test]
fn a_return_gives_never_and_checks_its_value() {
    let resolved = resolution();
    let (mut typed, int, _) = program(TypecheckCapabilityModel::Std);
    let never = typed.builtin_types().never;
    let value = Expr::Literal(Literal::Integer);
    let done = type_return(&mut typed, &resolved, returning(Some(int)), Some(&value), None).unwrap();
    assert_eq!(done.value_type, Some(never));

    let wrong = Expr::Literal(Literal::Boolean);
    let error = type_return(&mut typed, &resolved, returning(Some(int)), Some(&wrong), None).unwrap_err();
    assert_eq!(error.kind(), TypecheckErrorKind::IncompatibleType);
    assert_eq!(error.message(), "return expects 'int' but got 'bol'");

    let error = type_return(&mut typed, &resolved, returning(None), Some(&value), None).unwrap_err();
    assert_eq!(error.message(), "return with a value requires a declared routine return type in V1");
    let error = type_return(&mut typed, &resolved, returning(Some(int)), None, None).unwrap_err();
    assert_eq!(error.message(), "return requires a value for routines with a declared return type");
    let bare = type_return(&mut typed, &resolved, returning(None), None, None).unwrap();
    assert_eq!(bare.value_type, Some(never));
}

#[test]
fn a_returned_loan_of_an_owned_local_dangles() {
    let resolved = resolution();
    let (mut typed, int, _) = program(TypecheckCapabilityModel::Std);
    let borrowed = typed.intern_type(CheckedType::Borrowed { inner: int, mutable: false });
    let loan = Expr::UnaryOp { op: UnaryOperator::BorrowFrom, operand: Box::new(name("n", 50)) };
    let error = type_return(&mut typed, &resolved, returning(Some(borrowed)), Some(&loan), None).unwrap_err();
    assert_eq!(error.kind(), TypecheckErrorKind::Ownership);
    assert_eq!(
        error.message(),
        "cannot return a borrow of the owned local 'n'; the borrow would dangle after the routine returns"
    );
    assert_eq!(error.diagnostic_location(), Some(&at(50)));
}

#[test]
fn a_returned_owned_value_is_handed_over() {
    let resolved = resolution();
    let (mut typed, _, _) = program(TypecheckCapabilityModel::Std);
    let pointer = typed.typed_symbol(SymbolId(13)).unwrap().declared_type.unwrap();
    let error = type_return(&mut typed, &resolved, returning(Some(pointer)), Some(&name("p", 53)), None).unwrap_err();
    assert_eq!(
        error.message(),
        "an owned value returned must state its operation: use '[mov]', '[cpy]', or '[cln]'"
    );
}
