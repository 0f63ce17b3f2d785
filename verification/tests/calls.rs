use lib::arguments::CallArgument;
use lib::call_checks::{ArgShape, CallArgFacts};
use lib::calls::check_call_arguments;
use lib::config::TypecheckCapabilityModel;
use lib::errors::TypecheckErrorKind;
use lib::exprs::{ErrorCallMode, TypeContext};
use lib::ids::{ReferenceId, ScopeId, SourceUnitId, SymbolId, SyntaxNodeId, SyntaxOrigin};
use lib::model::{TypedProgram, TypedReference, TypedSymbol};
use lib::resolution::{
    ReferenceKind, Resolution, ResolvedReference, ResolvedScope, ResolvedSymbol, SymbolKind,
};
use lib::sorted_map::SortedMap;
use lib::types::{BuiltinType, CheckedType, CheckedTypeId, DeclaredTypeKind, RoutineType};
use lib::walk::{Expr, Literal};
use lib::widths::IntWidth;

fn at(line: usize) -> SyntaxOrigin {
    SyntaxOrigin { file: None, line, column: 2, length: 1 }
}

/// `n` (symbol 10, an `int`) is used at node 50, and `s` (symbol 11, a
/// `str`) at node 51.
fn resolution() -> Resolution {
    let mut resolved = Resolution::new();
    resolved.scopes.insert(ScopeId(1), ResolvedScope { parent: None, routine: true });
    for (id, name) in [(10, "n"), (11, "s"), (12, "o"), (13, "p"), (14, "w")] {
        resolved.symbols.insert(
            SymbolId(id),
            ResolvedSymbol {
                name: name.to_string(),
                kind: SymbolKind::ValueBinding,
                source_unit: SourceUnitId(0),
                scope: ScopeId(1),
                origin: None,
                mounted: false,
                is_mutable: false,
            },
        );
    }
    for (reference, node, symbol) in [(0, 50, 10), (1, 51, 11), (2, 52, 12), (3, 53, 13), (4, 54, 14)] {
        resolved.references.insert(
            ReferenceId(reference),
            ResolvedReference {
                kind: ReferenceKind::Identifier,
                syntax_id: Some(SyntaxNodeId(node)),
                source_unit: SourceUnitId(0),
                resolved: Some(SymbolId(symbol)),
            },
        );
        resolved.origins.insert(SyntaxNodeId(node), at(node));
    }
    resolved
}

fn symbol(id: usize, declared_type: CheckedTypeId) -> TypedSymbol {
    TypedSymbol {
        symbol_id: SymbolId(id),
        kind: SymbolKind::ValueBinding,
        scope_id: ScopeId(1),
        source_unit_id: SourceUnitId(0),
        declared_type: Some(declared_type),
        receiver_type: None,
        param_defaults: Vec::new(),
        generic_params: Vec::new(),
        generic_constraints: SortedMap::new(),
        is_mutable: false,
        is_mutex: false,
        is_mutex_guard: false,
        is_channel_sender_capture: false,
        channel_receiver_params: SortedMap::new(),
    }
}

fn context() -> TypeContext {
    TypeContext {
        source_unit_id: SourceUnitId(0),
        scope_id: ScopeId(1),
        routine_return_type: None,
        routine_error_type: None,
        error_call_mode: ErrorCallMode::Propagate,
        processor_task_call: None,
        allow_mutex_handle: false,
        repeating_loop_scope: None,
        inside_deferred_block: false,
        inside_error_deferred_block: false,
        field_projection_root: false,
    }
}

/// A program under `model` with `n: int` and `s: str`.
fn program(model: TypecheckCapabilityModel) -> (TypedProgram, CheckedTypeId, CheckedTypeId) {
    let mut typed = TypedProgram::with_model(model);
    let int = typed.intern_type(CheckedType::Builtin(BuiltinType::Int(IntWidth::DEFAULT)));
    let text = typed.intern_type(CheckedType::Builtin(BuiltinType::Str));
    typed.insert_typed_symbol(symbol(10, int));
    typed.insert_typed_symbol(symbol(11, text));
    let optional = typed.intern_type(CheckedType::Optional { inner: int });
    typed.insert_typed_symbol(symbol(12, optional));
    let pointer = typed.intern_type(CheckedType::Pointer {
        target: int,
        shared: false,
        weak: false,
        sync: false,
        raw: false,
        mutable: false,
    });
    typed.insert_typed_symbol(symbol(13, pointer));
    let weak = typed.intern_type(CheckedType::Pointer {
        target: int,
        shared: false,
        weak: true,
        sync: false,
        raw: false,
        mutable: false,
    });
    typed.insert_typed_symbol(symbol(14, weak));
    for reference in [0, 1, 2, 3, 4] {
        typed.insert_typed_reference(TypedReference {
            reference_id: ReferenceId(reference),
            kind: ReferenceKind::Identifier,
            source_unit_id: SourceUnitId(0),
            resolved_type: None,
            recoverable_effect: None,
        });
    }
    (typed, int, text)
}

fn name(name: &str, node: usize) -> Expr<'_> {
    Expr::Identifier { name, syntax_id: Some(SyntaxNodeId(node)) }
}


fn routine(params: Vec<CheckedTypeId>, variadic_index: Option<usize>) -> RoutineType {
    RoutineType {
        generic_params: Vec::new(),
        generic_constraints: SortedMap::new(),
        param_names: params.iter().map(|_| "value".to_string()).collect(),
        param_defaults: params.iter().map(|_| None).collect(),
        variadic_index,
        mutex_params: SortedMap::new(),
        params,
        return_type: None,
        error_type: None,
        env_lifetime: false,
    }
}

fn facts_of(node: Option<usize>) -> CallArgFacts {
    CallArgFacts {
        origin: node.map(at),
        shape: match node {
            Some(n) => ArgShape::Identifier(SyntaxNodeId(n)),
            None => ArgShape::Other,
        },
        syntax_ids: node.map(|n| vec![SyntaxNodeId(n)]).unwrap_or_default(),
    }
}

fn call(
    typed: &mut TypedProgram,
    signature: &RoutineType,
    values: Vec<Expr>,
    nodes: Vec<Option<usize>>,
) -> Result<(SortedMap<SymbolId, CheckedTypeId>, Option<lib::model::RecoverableCallEffect>), lib::errors::TypecheckError> {
    let args = values.iter().map(|_| CallArgument::Positional).collect();
    let arg_facts = nodes.into_iter().map(facts_of).collect();
    check_call_arguments(
        typed,
        &resolution(),
        context(),
        signature,
        &args,
        &values,
        &arg_facts,
        "f",
        Some(at(90)),
        true,
        true,
        false,
    )
}

#[test]
fn call_arguments_must_fit_their_parameters() {
    let (mut typed, int, _) = program(TypecheckCapabilityModel::Std);
    let signature = routine(vec![int], None);
    let (bindings, effect) = call(&mut typed, &signature, vec![Expr::Literal(Literal::Integer)], vec![None]).unwrap();
    assert!(bindings.is_empty());
    assert_eq!(effect, None);

    let error = call(&mut typed, &signature, vec![Expr::Literal(Literal::Boolean)], vec![None]).unwrap_err();
    assert_eq!(error.kind(), TypecheckErrorKind::IncompatibleType);
    assert_eq!(error.message(), "call to 'f' expects 'int' but got 'bol'");
    assert_eq!(error.diagnostic_location(), Some(&at(90)));

    let error = call(
        &mut typed,
        &signature,
        vec![Expr::Literal(Literal::Integer), Expr::Literal(Literal::Integer)],
        vec![None, None],
    )
    .unwrap_err();
    assert_eq!(error.message(), "call to 'f' expects 1 args but got 2");
}

#[test]
fn a_generic_parameter_is_bound_by_its_argument() {
    let (mut typed, int, _) = program(TypecheckCapabilityModel::Std);
    let generic = typed.intern_type(CheckedType::Declared {
        symbol: SymbolId(30),
        name: "T".to_string(),
        kind: DeclaredTypeKind::GenericParameter,
        args: Vec::new(),
    });
    let signature = routine(vec![generic], None);
    let (bindings, _) = call(&mut typed, &signature, vec![name("n", 50)], vec![Some(50)]).unwrap();
    assert_eq!(bindings.get(&SymbolId(30)), Some(&int));
}

#[test]
fn an_owned_argument_is_handed_over() {
    let (mut typed, _, _) = program(TypecheckCapabilityModel::Std);
    let pointer = typed.typed_symbol(SymbolId(13)).unwrap().declared_type.unwrap();
    let signature = routine(vec![pointer], None);
    call(&mut typed, &signature, vec![name("p", 53)], vec![Some(53)]).unwrap();
    assert_eq!(typed.moved_binding_origin(SymbolId(13)), Some(&at(53)));
}

#[test]
fn variadic_arguments_are_typed_against_the_element_type() {
    let (mut typed, int, _) = program(TypecheckCapabilityModel::Std);
    let sequence = typed.intern_type(CheckedType::Sequence { element_type: int });
    let signature = routine(vec![sequence], Some(0));
    let values = vec![Expr::Literal(Literal::Integer), name("n", 50)];
    call(&mut typed, &signature, values, vec![None, Some(50)]).unwrap();

    let values = vec![Expr::Literal(Literal::Integer), Expr::Literal(Literal::Boolean)];
    let error = call(&mut typed, &signature, values, vec![None, None]).unwrap_err();
    assert_eq!(error.message(), "call to 'f' expects 'int' but got 'bol'");
}
