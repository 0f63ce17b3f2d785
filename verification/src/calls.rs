//! Typing the arguments of a call against the parameters they are bound
//! to: binding, the call-site checks on mutex handles and loans, each
//! argument typed against its parameter (or inferred from, for a generic
//! one), handed over unless it is a sender taken from a full channel or a
//! forwarded mutex handle, and the recoverable effects of the arguments
//! merged.
use crate::apparent::{
    apparent_outcome, cycle_error, merged_effects, mixed_effects_error, result_view, type_at,
};
use crate::arguments::{call_binding, BoundArgView, CallArgument};
use crate::call_checks::{
    call_site_borrows, deferred_forward_error, either, eventual_argument_outcome, first_forwarded_mutex,
    forward_scan, mutex_handle, CallArgFacts,
};
use crate::errors::{with_fallback, TypecheckError, TypecheckErrorKind, TypecheckErrorView};
use crate::exprs::{ErrorCallMode, TypeContext, TypedExpr};
use crate::generics::{assignment_outcome, inference_outcome, inference_resolves};
use crate::ids::{SymbolId, SyntaxOrigin, SyntaxOriginView};
use crate::model::{RecoverableCallEffect, TypedProgram, TypedSymbol};
use crate::ownership::{FactsView, OwnershipView};
use crate::rejections::{error_at, origin_view, plain_use_error, shell_conversion_outcome};
use crate::resolution::Resolution;
use crate::shapes::{reaches, TypeQuery};
use crate::transfers::after_transfer;
use crate::types::{CheckedTypeId, CheckedTypeView, RoutineType};
use crate::walk::{expr_transfer, extends, node_origin_at, node_outcome, walk_ready, Expr};
use vstd::prelude::*;

verus! {

/// Generic parameters bound to types, and the recoverable effect of each
/// argument typed so far, in order.
pub type ArgumentsSoFar = (Map<SymbolId, CheckedTypeId>, Seq<Option<RecoverableCallEffect>>);

/// Where typing a call's arguments stands: what was found so far or the
/// first diagnostic, with the facts and ownership state.
pub type ArgumentsStep = (Result<ArgumentsSoFar, TypecheckErrorView>, FactsView, OwnershipView);

/// How a call to `callee` is named in diagnostics about its arguments.
pub open spec fn call_label(callee: Seq<char>) -> Seq<char> {
    "call to '"@ + callee + "'"@
}

/// Whether a parameter of type `expected` mentions a generic parameter.
pub open spec fn is_generic(
    facts: FactsView,
    symbols: Map<SymbolId, TypedSymbol>,
    expected: CheckedTypeId,
) -> bool {
    reaches(TypeQuery::GenericParameter, facts, symbols, expected, true, Set::empty())
}

/// Whether handing a value of type `actual` to a parameter of type
/// `expected` takes a sender from a full channel of the same element type.
pub open spec fn extracts_sender(facts: FactsView, expected: CheckedTypeId, actual: CheckedTypeId) -> bool {
    match (type_at(facts, expected), type_at(facts, actual)) {
        (
            Some(CheckedTypeView::ChannelSender { element_type: e }),
            Some(CheckedTypeView::Channel { element_type: a }),
        ) => e == a,
        _ => false,
    }
}

/// What typing one argument `value` for a parameter of type `expected`
/// gives, with the generic bindings `bindings` so far: the argument is typed
/// (against `expected` unless it mentions a generic parameter), may not turn
/// a recoverable result into an error shell or use one as a plain value,
/// must have a type and carry no nested eventual, binds the generic
/// parameters or is assignable by its apparent type, and is handed over,
/// unless, outside a variadic pack, it gives a sender from a full channel or
/// forwards a mutex handle.
pub open spec fn argument_outcome(
    facts: FactsView,
    symbols: Map<SymbolId, TypedSymbol>,
    o: OwnershipView,
    resolution: &Resolution,
    context: TypeContext,
    callee: Seq<char>,
    origin: Option<SyntaxOriginView>,
    expected: CheckedTypeId,
    value: Expr,
    forwards: bool,
    packed: bool,
    bindings: Map<SymbolId, CheckedTypeId>,
) -> (Result<(Map<SymbolId, CheckedTypeId>, Option<RecoverableCallEffect>), TypecheckErrorView>, FactsView, OwnershipView) {
    let generic = is_generic(facts, symbols, expected);
    let typing_context = if packed {
        context
    } else {
        TypeContext { allow_mutex_handle: forwards, ..context }
    };
    let at = either(origin, origin_view(node_origin_at(resolution, value)));
    let label = call_label(callee);
    let (r, f, o1) = node_outcome(
        facts,
        symbols,
        o,
        resolution,
        typing_context,
        value,
        if generic {
            None
        } else {
            Some(expected)
        },
    );
    match r {
        Err(e) => (Err(with_fallback(e, at)), f, o1),
        Ok(typed) => match (if generic {
            Ok(())
        } else {
            shell_conversion_outcome(f, symbols, expected, typed, at, label)
        }) {
            Err(e) => (Err(e), f, o1),
            Ok(_) => if typed.recoverable_effect is Some && context.error_call_mode == ErrorCallMode::Propagate {
                (Err(plain_use_error(label, at)), f, o1)
            } else {
                match typed.value_type {
                    None => (
                        Err(
                            error_at(
                                TypecheckErrorKind::InvalidInput,
                                (if packed {
                                    "variadic argument for '"@
                                } else {
                                    "argument for '"@
                                }) + callee + "' does not have a type"@,
                                None,
                            ),
                        ),
                        f,
                        o1,
                    ),
                    Some(actual) => match eventual_argument_outcome(
                        f,
                        symbols,
                        either(origin_view(node_origin_at(resolution, value)), origin),
                        actual,
                        generic,
                        callee,
                    ) {
                        Err(e) => (Err(e), f, o1),
                        Ok(_) => {
                            let checked: Result<Map<SymbolId, CheckedTypeId>, TypecheckErrorView> = if generic {
                                let (b2, r2) = inference_outcome(
                                    f,
                                    symbols,
                                    f.builtins.never,
                                    expected,
                                    actual,
                                    bindings,
                                    label,
                                    at,
                                );
                                match r2 {
                                    Ok(_) => Ok(b2),
                                    Err(e) => Err(e),
                                }
                            } else {
                                match apparent_outcome(f, symbols, actual) {
                                    Err(_) => Err(cycle_error()),
                                    Ok(a) => match assignment_outcome(
                                        f,
                                        symbols,
                                        f.builtins.never,
                                        expected,
                                        a,
                                        label,
                                        origin,
                                    ) {
                                        Ok(_) => Ok(bindings),
                                        Err(e) => Err(e),
                                    },
                                }
                            };
                            match checked {
                                Err(e) => (Err(e), f, o1),
                                Ok(b2) => if !packed && (extracts_sender(f, expected, actual) || forwards) {
                                    (Ok((b2, typed.recoverable_effect)), f, o1)
                                } else {
                                    match expr_transfer(
                                        f,
                                        symbols,
                                        resolution,
                                        context.repeating_loop_scope,
                                        value,
                                        actual,
                                    ) {
                                        Err(e) => (Err(e), f, o1),
                                        Ok(record) => (
                                            Ok((b2, typed.recoverable_effect)),
                                            f,
                                            after_transfer(o1, record),
                                        ),
                                    }
                                },
                            }
                        },
                    },
                }
            },
        },
    }
}

/// One more argument typed after `prev`.
pub open spec fn then_argument(
    prev: ArgumentsStep,
    symbols: Map<SymbolId, TypedSymbol>,
    resolution: &Resolution,
    context: TypeContext,
    callee: Seq<char>,
    origin: Option<SyntaxOriginView>,
    expected: CheckedTypeId,
    value: Expr,
    forwards: bool,
    packed: bool,
) -> ArgumentsStep {
    let (r, f, o) = prev;
    match r {
        Err(e) => (Err(e), f, o),
        Ok((bindings, effects)) => {
            let (r2, f2, o2) = argument_outcome(
                f,
                symbols,
                o,
                resolution,
                context,
                callee,
                origin,
                expected,
                value,
                forwards,
                packed,
                bindings,
            );
            match r2 {
                Err(e) => (Err(e), f2, o2),
                Ok((b2, effect)) => (Ok((b2, effects.push(effect))), f2, o2),
            }
        },
    }
}

/// The first `m` arguments of a variadic pack typed, after `start`, against
/// the pack's element type.
pub open spec fn pack_outcome(
    start: ArgumentsStep,
    symbols: Map<SymbolId, TypedSymbol>,
    resolution: &Resolution,
    context: TypeContext,
    callee: Seq<char>,
    origin: Option<SyntaxOriginView>,
    element: CheckedTypeId,
    values: Seq<Expr>,
    list: Seq<usize>,
    m: int,
) -> ArgumentsStep
    decreases m,
{
    if m <= 0 {
        start
    } else {
        then_argument(
            pack_outcome(start, symbols, resolution, context, callee, origin, element, values, list, m - 1),
            symbols,
            resolution,
            context,
            callee,
            origin,
            element,
            values[list[m - 1] as int],
            false,
            true,
        )
    }
}

/// The arguments bound to the first `k` parameters typed, in order.
pub open spec fn parameters_outcome(
    facts: FactsView,
    symbols: Map<SymbolId, TypedSymbol>,
    o: OwnershipView,
    resolution: &Resolution,
    context: TypeContext,
    signature: RoutineType,
    bound: Seq<BoundArgView>,
    values: Seq<Expr>,
    arg_facts: Seq<CallArgFacts>,
    callee: Seq<char>,
    origin: Option<SyntaxOriginView>,
    k: int,
) -> ArgumentsStep
    decreases k,
{
    if k <= 0 {
        (Ok((Map::empty(), seq![])), facts, o)
    } else {
        let prev = parameters_outcome(
            facts,
            symbols,
            o,
            resolution,
            context,
            signature,
            bound,
            values,
            arg_facts,
            callee,
            origin,
            k - 1,
        );
        let j = k - 1;
        let expected = signature.params@[j];
        match bound[j] {
            BoundArgView::Explicit(a) | BoundArgView::VariadicUnpack(a) => then_argument(
                prev,
                symbols,
                resolution,
                context,
                callee,
                origin,
                expected,
                values[a as int],
                signature.mutex_params.as_map().contains_key(j as usize) && mutex_handle(
                    symbols,
                    resolution,
                    arg_facts[a as int],
                ) is Some,
                false,
            ),
            BoundArgView::VariadicPack(list) => match prev.0 {
                Err(_) => prev,
                Ok(_) => match type_at(prev.1, expected) {
                    Some(CheckedTypeView::Sequence { element_type }) => pack_outcome(
                        prev,
                        symbols,
                        resolution,
                        context,
                        callee,
                        origin,
                        element_type,
                        values,
                        list,
                        list.len() as int,
                    ),
                    _ => (
                        Err(
                            error_at(
                                TypecheckErrorKind::Internal,
                                "variadic call to '"@ + callee + "' lost its sequence parameter type"@,
                                None,
                            ),
                        ),
                        prev.1,
                        prev.2,
                    ),
                },
            },
            BoundArgView::Default => prev,
        }
    }
}

/// What typing the arguments `args` (written `values`, read as
/// `arg_facts`) of a call to `callee` with `signature` gives: the generic
/// parameters bound and the one recoverable effect the arguments share.
/// The arguments are bound to the parameters; then no mutex handle may be
/// forwarded inside a deferred block, mutex handles must be forwarded
/// soundly, and the loans the call takes must not clash; then each
/// parameter's arguments are typed in order.
pub open spec fn call_arguments_outcome(
    facts: FactsView,
    symbols: Map<SymbolId, TypedSymbol>,
    o: OwnershipView,
    resolution: &Resolution,
    context: TypeContext,
    signature: RoutineType,
    args: Seq<CallArgument>,
    values: Seq<Expr>,
    arg_facts: Seq<CallArgFacts>,
    callee: &str,
    origin: Option<SyntaxOriginView>,
    allow_named: bool,
    allow_defaults: bool,
    processor_task_target: bool,
) -> (
    Result<(Map<SymbolId, CheckedTypeId>, Option<RecoverableCallEffect>), TypecheckErrorView>,
    FactsView,
    OwnershipView,
) {
    let keys = signature.mutex_params.entries().map_values(|e: (usize, ())| e.0);
    match call_binding(signature@, args, callee, origin, allow_named, allow_defaults) {
        Err(e) => (Err(e), facts, o),
        Ok(bound) => {
            let deferred = if !context.inside_deferred_block {
                None
            } else {
                first_forwarded_mutex(symbols, resolution, keys, bound, arg_facts, 0)
            };
            match deferred {
                Some((index, a)) => (
                    Err(deferred_forward_error(callee@, index, origin_view(arg_facts[a as int].origin))),
                    facts,
                    o,
                ),
                None => match forward_scan(
                    symbols,
                    o,
                    resolution,
                    keys,
                    bound,
                    arg_facts,
                    callee@,
                    origin,
                    processor_task_target,
                    signature.mutex_params.entries().len(),
                ) {
                    Err(e) => (Err(e), facts, o),
                    Ok(_) => match call_site_borrows(
                        facts,
                        symbols,
                        o,
                        resolution,
                        signature.params@,
                        bound,
                        arg_facts,
                        callee@,
                        origin,
                    ) {
                        Err(e) => (Err(e), facts, o),
                        Ok(_) => {
                            let (r, f, o1) = parameters_outcome(
                                facts,
                                symbols,
                                o,
                                resolution,
                                context,
                                signature,
                                bound,
                                values,
                                arg_facts,
                                callee@,
                                origin,
                                bound.len() as int,
                            );
                            match r {
                                Err(e) => (Err(e), f, o1),
                                Ok((bindings, effects)) => match merged_effects(effects, effects.len() as int) {
                                    Ok(merged) => (Ok((bindings, merged)), f, o1),
                                    Err(pair) => (
                                        Err(mixed_effects_error(f, "call arguments"@, pair.0, pair.1, origin)),
                                        f,
                                        o1,
                                    ),
                                },
                            }
                        },
                    },
                },
            }
        },
    }
}

/// Inference from any parameter type to any argument type ends, however
/// many more types of other shapes than named ones are stored.
pub open spec fn inference_always_ends(facts: FactsView, symbols: Map<SymbolId, TypedSymbol>) -> bool {
    forall|later: FactsView,
        never: CheckedTypeId,
        expected: CheckedTypeId,
        actual: CheckedTypeId,
        bindings: Map<SymbolId, CheckedTypeId>,
        surface: Seq<char>,
        origin: Option<SyntaxOriginView>|
        extends(facts, later) ==> #[trigger] inference_resolves(
            later,
            symbols,
            never,
            expected,
            actual,
            bindings,
            surface,
            origin,
        )
}

/// Inference that ends over `facts` ends over any facts extending them.
proof fn lemma_inference_ends_later(
    facts: FactsView,
    later: FactsView,
    symbols: Map<SymbolId, TypedSymbol>,
)
    requires
        inference_always_ends(facts, symbols),
        extends(facts, later),
    ensures
        inference_always_ends(later, symbols),
{
    assert forall|f: FactsView,
        never: CheckedTypeId,
        expected: CheckedTypeId,
        actual: CheckedTypeId,
        bindings: Map<SymbolId, CheckedTypeId>,
        surface: Seq<char>,
        origin: Option<SyntaxOriginView>|
        extends(later, f) implies #[trigger] inference_resolves(
        f,
        symbols,
        never,
        expected,
        actual,
        bindings,
        surface,
        origin,
    ) by {
        assert(extends(facts, f));
    }
}

/// Once typing the arguments of a variadic pack fails, later arguments
/// change nothing.
proof fn lemma_pack_error_stays(
    start: ArgumentsStep,
    symbols: Map<SymbolId, TypedSymbol>,
    resolution: &Resolution,
    context: TypeContext,
    callee: Seq<char>,
    origin: Option<SyntaxOriginView>,
    element: CheckedTypeId,
    values: Seq<Expr>,
    list: Seq<usize>,
    i: int,
    m: int,
)
    requires
        0 <= i <= m,
        pack_outcome(start, symbols, resolution, context, callee, origin, element, values, list, i).0 is Err,
    ensures
        pack_outcome(start, symbols, resolution, context, callee, origin, element, values, list, m)
            == pack_outcome(start, symbols, resolution, context, callee, origin, element, values, list, i),
    decreases m - i,
{
    if m > i {
        lemma_pack_error_stays(start, symbols, resolution, context, callee, origin, element, values, list, i, m - 1);
    }
}

/// Once typing the arguments of a call fails, later parameters change
/// nothing.
proof fn lemma_parameters_error_stays(
    facts: FactsView,
    symbols: Map<SymbolId, TypedSymbol>,
    o: OwnershipView,
    resolution: &Resolution,
    context: TypeContext,
    signature: RoutineType,
    bound: Seq<BoundArgView>,
    values: Seq<Expr>,
    arg_facts: Seq<CallArgFacts>,
    callee: Seq<char>,
    origin: Option<SyntaxOriginView>,
    i: int,
    k: int,
)
    requires
        0 <= i <= k,
        parameters_outcome(facts, symbols, o, resolution, context, signature, bound, values, arg_facts, callee, origin, i).0 is Err,
    ensures
        parameters_outcome(facts, symbols, o, resolution, context, signature, bound, values, arg_facts, callee, origin, k)
            == parameters_outcome(facts, symbols, o, resolution, context, signature, bound, values, arg_facts, callee, origin, i),
    decreases k - i,
{
    if k > i {
        lemma_parameters_error_stays(facts, symbols, o, resolution, context, signature, bound, values, arg_facts, callee, origin, i, k - 1);
        let prev = parameters_outcome(facts, symbols, o, resolution, context, signature, bound, values, arg_facts, callee, origin, k - 1);
        match bound[k - 1] {
            BoundArgView::VariadicPack(list) => {},
            _ => {},
        }
    }
}

/// Whether a value of type `actual` handed to a parameter of type
/// `expected` gives a sender taken from a full channel.
fn gives_sender(typed: &TypedProgram, expected: CheckedTypeId, actual: CheckedTypeId) -> (r: bool)
    ensures
        r == extracts_sender(typed.facts(), expected, actual),
{
    match (typed.type_table().get(expected), typed.type_table().get(actual)) {
        (
            Some(crate::types::CheckedType::ChannelSender { element_type: e }),
            Some(crate::types::CheckedType::Channel { element_type: a }),
        ) => *e == *a,
        _ => false,
    }
}

/// Types one argument `value` of a call to `callee` for a parameter of type
/// `expected`, binding generic parameters in `bindings`.
fn type_argument(
    typed: &mut TypedProgram,
    resolution: &Resolution,
    context: TypeContext,
    callee: &str,
    origin: &Option<SyntaxOrigin>,
    expected: CheckedTypeId,
    value: &Expr,
    forwards: bool,
    packed: bool,
    bindings: &mut crate::sorted_map::SortedMap<SymbolId, CheckedTypeId>,
) -> (r: Result<Option<RecoverableCallEffect>, TypecheckError>)
    requires
        walk_ready(old(typed).facts(), old(typed).symbol_facts()),
        crate::transfers::loop_walks_end(resolution, context.repeating_loop_scope),
        expected.0 < old(typed).facts().types.len(),
        inference_always_ends(old(typed).facts(), old(typed).symbol_facts()),
    ensures
        ({
            let (out, f, o) = argument_outcome(
                old(typed).facts(),
                old(typed).symbol_facts(),
                old(typed).ownership(),
                resolution,
                context,
                callee@,
                origin_view(*origin),
                expected,
                *value,
                forwards,
                packed,
                old(bindings).as_map(),
            );
            &&& final(typed).facts() == f
            &&& final(typed).ownership() == o
            &&& match out {
                Ok((b, effect)) => r == Ok::<Option<RecoverableCallEffect>, TypecheckError>(effect)
                    && final(bindings).as_map() == b,
                Err(e) => r matches Err(x) && x@ == e,
            }
        }),
        walk_ready(final(typed).facts(), final(typed).symbol_facts()),
        extends(old(typed).facts(), final(typed).facts()),
        final(typed).symbol_facts() == old(typed).symbol_facts(),
{
    let ghost f0 = typed.facts();
    let ghost sy = typed.symbol_facts();
    let generic = crate::shapes::checked_type_contains_generic_param(typed, expected);
    let typing_context = if packed {
        context
    } else {
        TypeContext { allow_mutex_handle: forwards, ..context }
    };
    let at = crate::call_checks::either_origin(crate::ids::copy_origin(origin), &crate::walk::node_origin(resolution, value));
    let typed_expr = match crate::walk::type_node_with_expectation(
        typed,
        resolution,
        typing_context,
        value,
        if generic {
            None
        } else {
            Some(expected)
        },
    ) {
        Ok(e) => e,
        Err(e) => {
            return Err(crate::initializers::placed_error(e, at));
        },
    };
    proof {
        lemma_inference_ends_later(f0, typed.facts(), sy);
    }
    let mut label = crate::text::owned("call to '");
    crate::text::push_text(&mut label, callee);
    crate::text::push_text(&mut label, "'");
    if !generic {
        proof {
            crate::walk::lemma_ready_resolves(typed.facts(), sy, expected);
        }
        match crate::rejections::reject_recoverable_error_shell_conversion(
            typed,
            expected,
            &typed_expr,
            crate::ids::copy_origin(&at),
            label.as_str(),
        ) {
            Ok(()) => {},
            Err(e) => {
                return Err(e);
            },
        }
    }
    let typed_expr = match crate::rejections::plain_value_expr(
        typed,
        context,
        typed_expr,
        crate::ids::copy_origin(&at),
        label.as_str(),
    ) {
        Ok(e) => e,
        Err(e) => {
            return Err(e);
        },
    };
    let actual = match typed_expr.value_type {
        Some(t) => t,
        None => {
            let mut message = crate::text::owned(if packed {
                "variadic argument for '"
            } else {
                "argument for '"
            });
            crate::text::push_text(&mut message, callee);
            crate::text::push_text(&mut message, "' does not have a type");
            return Err(TypecheckError::new(TypecheckErrorKind::InvalidInput, message.as_str()));
        },
    };
    match crate::call_checks::validate_eventual_call_argument(
        typed,
        crate::walk::node_origin(resolution, value),
        actual,
        generic,
        callee,
        crate::ids::copy_origin(origin),
    ) {
        Ok(()) => {},
        Err(e) => {
            return Err(e);
        },
    }
    let never = typed.builtin_types().never;
    if generic {
        match crate::generics::infer_generic_bindings_from_argument(
            typed,
            never,
            expected,
            actual,
            bindings,
            crate::text::owned(label.as_str()),
            crate::ids::copy_origin(&at),
        ) {
            Ok(()) => {},
            Err(e) => {
                return Err(e);
            },
        }
    } else {
        proof {
            crate::walk::lemma_ready_resolves(typed.facts(), sy, actual);
        }
        let apparent = match crate::apparent::apparent_type_id(typed, actual) {
            Ok(a) => a,
            Err(e) => {
                return Err(e);
            },
        };
        proof {
            crate::walk::lemma_ready_resolves(typed.facts(), sy, apparent);
            crate::walk::lemma_ready_resolves(typed.facts(), sy, expected);
            match (apparent_outcome(typed.facts(), sy, expected), apparent_outcome(typed.facts(), sy, apparent)) {
                (Ok(ea), Ok(_)) => {
                    match crate::apparent::shell_payload(typed.facts(), ea) {
                        Some(p) => crate::walk::lemma_ready_resolves(typed.facts(), sy, p),
                        None => {},
                    }
                },
                _ => {},
            }
        }
        match crate::generics::ensure_assignable(
            typed,
            never,
            expected,
            apparent,
            crate::text::owned(label.as_str()),
            crate::ids::copy_origin(origin),
        ) {
            Ok(()) => {},
            Err(e) => {
                return Err(e);
            },
        }
    }
    if !packed && (gives_sender(typed, expected, actual) || forwards) {
        return Ok(typed_expr.recoverable_effect);
    }
    match crate::walk::transfer_operand(typed, resolution, context, value, actual) {
        Ok(()) => {},
        Err(e) => {
            return Err(e);
        },
    }
    Ok(typed_expr.recoverable_effect)
}

/// Types the arguments in the variadic pack `list` against the pack's
/// element type, after the arguments typed so far.
fn type_pack(
    typed: &mut TypedProgram,
    resolution: &Resolution,
    context: TypeContext,
    callee: &str,
    origin: &Option<SyntaxOrigin>,
    element: CheckedTypeId,
    list: &Vec<usize>,
    values: &Vec<Expr>,
    bindings: &mut crate::sorted_map::SortedMap<SymbolId, CheckedTypeId>,
    effects: &mut Vec<Option<RecoverableCallEffect>>,
) -> (r: Result<(), TypecheckError>)
    requires
        walk_ready(old(typed).facts(), old(typed).symbol_facts()),
        crate::transfers::loop_walks_end(resolution, context.repeating_loop_scope),
        element.0 < old(typed).facts().types.len(),
        inference_always_ends(old(typed).facts(), old(typed).symbol_facts()),
        forall|k: int| 0 <= k < list@.len() ==> (#[trigger] list@[k]) < values@.len(),
    ensures
        ({
            let start: ArgumentsStep = (
                Ok((old(bindings).as_map(), old(effects)@)),
                old(typed).facts(),
                old(typed).ownership(),
            );
            let (out, f, o) = pack_outcome(
                start,
                old(typed).symbol_facts(),
                resolution,
                context,
                callee@,
                origin_view(*origin),
                element,
                values@,
                list@,
                list@.len() as int,
            );
            &&& final(typed).facts() == f
            &&& final(typed).ownership() == o
            &&& match out {
                Ok((b, e)) => r is Ok && final(bindings).as_map() == b && final(effects)@ == e,
                Err(e) => r matches Err(x) && x@ == e,
            }
        }),
        walk_ready(final(typed).facts(), final(typed).symbol_facts()),
        extends(old(typed).facts(), final(typed).facts()),
        final(typed).symbol_facts() == old(typed).symbol_facts(),
        inference_always_ends(final(typed).facts(), final(typed).symbol_facts()),
{
    let ghost start: ArgumentsStep = (Ok((bindings.as_map(), effects@)), typed.facts(), typed.ownership());
    let ghost f0 = typed.facts();
    let ghost sy = typed.symbol_facts();
    let ghost ov = origin_view(*origin);
    let mut m: usize = 0;
    while m < list.len()
        invariant
            m <= list@.len(),
            forall|k: int| 0 <= k < list@.len() ==> (#[trigger] list@[k]) < values@.len(),
            start == (Ok::<ArgumentsSoFar, TypecheckErrorView>((old(bindings).as_map(), old(effects)@)), old(typed).facts(), old(typed).ownership()),
            f0 == old(typed).facts(),
            sy == old(typed).symbol_facts(),
            ov == origin_view(*origin),
            walk_ready(typed.facts(), typed.symbol_facts()),
            crate::transfers::loop_walks_end(resolution, context.repeating_loop_scope),
            typed.symbol_facts() == sy,
            extends(f0, typed.facts()),
            inference_always_ends(typed.facts(), sy),
            element.0 < f0.types.len(),
            pack_outcome(start, sy, resolution, context, callee@, ov, element, values@, list@, m as int)
                == (Ok::<ArgumentsSoFar, TypecheckErrorView>((bindings.as_map(), effects@)), typed.facts(), typed.ownership()),
        decreases list@.len() - m,
    {
        let ghost before = typed.facts();
        let a = list[m];
        match type_argument(typed, resolution, context, callee, origin, element, &values[a], false, true, bindings) {
            Ok(effect) => {
                effects.push(effect);
            },
            Err(e) => {
                proof {
                    lemma_pack_error_stays(start, sy, resolution, context, callee@, ov, element, values@, list@, m + 1, list@.len() as int);
                }
                return Err(e);
            },
        }
        proof {
            lemma_inference_ends_later(before, typed.facts(), sy);
        }
        m = m + 1;
    }
    Ok(())
}

/// Types the arguments bound to each parameter, in order.
#[verifier::rlimit(40)]
fn type_parameters(
    typed: &mut TypedProgram,
    resolution: &Resolution,
    context: TypeContext,
    signature: &RoutineType,
    bound: &Vec<crate::arguments::BoundCallArg>,
    values: &Vec<Expr>,
    arg_facts: &Vec<CallArgFacts>,
    callee: &str,
    origin: &Option<SyntaxOrigin>,
    bindings: &mut crate::sorted_map::SortedMap<SymbolId, CheckedTypeId>,
    effects: &mut Vec<Option<RecoverableCallEffect>>,
) -> (r: Result<(), TypecheckError>)
    requires
        walk_ready(old(typed).facts(), old(typed).symbol_facts()),
        crate::transfers::loop_walks_end(resolution, context.repeating_loop_scope),
        crate::call_checks::bound_views(bound@).len() == signature.params@.len(),
        crate::call_checks::within(crate::call_checks::bound_views(bound@), values@.len() as int),
        values@.len() == arg_facts@.len(),
        forall|j: int| 0 <= j < signature.params@.len() ==> (#[trigger] signature.params@[j]).0 < old(typed).facts().types.len(),
        inference_always_ends(old(typed).facts(), old(typed).symbol_facts()),
        old(bindings).as_map() == Map::<SymbolId, CheckedTypeId>::empty(),
        old(effects)@ == Seq::<Option<RecoverableCallEffect>>::empty(),
    ensures
        ({
            let (out, f, o) = parameters_outcome(
                old(typed).facts(),
                old(typed).symbol_facts(),
                old(typed).ownership(),
                resolution,
                context,
                *signature,
                crate::call_checks::bound_views(bound@),
                values@,
                arg_facts@,
                callee@,
                origin_view(*origin),
                bound@.len() as int,
            );
            &&& final(typed).facts() == f
            &&& final(typed).ownership() == o
            &&& match out {
                Ok((b, e)) => r is Ok && final(bindings).as_map() == b && final(effects)@ == e,
                Err(e) => r matches Err(x) && x@ == e,
            }
        }),
        walk_ready(final(typed).facts(), final(typed).symbol_facts()),
        extends(old(typed).facts(), final(typed).facts()),
        final(typed).symbol_facts() == old(typed).symbol_facts(),
{
    let ghost f0 = typed.facts();
    let ghost o0 = typed.ownership();
    let ghost sy = typed.symbol_facts();
    let ghost ov = origin_view(*origin);
    let ghost bv = crate::call_checks::bound_views(bound@);
    let n = bound.len();
    let mut j: usize = 0;
    while j < n
        invariant
            n == bound@.len(),
            bv == crate::call_checks::bound_views(bound@),
            bv.len() == signature.params@.len(),
            crate::call_checks::within(bv, values@.len() as int),
            values@.len() == arg_facts@.len(),
            j <= n,
            f0 == old(typed).facts(),
            o0 == old(typed).ownership(),
            sy == old(typed).symbol_facts(),
            ov == origin_view(*origin),
            walk_ready(typed.facts(), typed.symbol_facts()),
            crate::transfers::loop_walks_end(resolution, context.repeating_loop_scope),
            typed.symbol_facts() == sy,
            extends(f0, typed.facts()),
            inference_always_ends(typed.facts(), sy),
            forall|i: int| 0 <= i < signature.params@.len() ==> (#[trigger] signature.params@[i]).0 < f0.types.len(),
            parameters_outcome(f0, sy, o0, resolution, context, *signature, bv, values@, arg_facts@, callee@, ov, j as int)
                == (Ok::<ArgumentsSoFar, TypecheckErrorView>((bindings.as_map(), effects@)), typed.facts(), typed.ownership()),
        decreases n - j,
    {
        let ghost before = typed.facts();
        let expected = signature.params[j];
        proof {
            assert(bv[j as int] == bound@[j as int]@);
        }
        match &bound[j] {
            crate::arguments::BoundCallArg::Explicit(a) | crate::arguments::BoundCallArg::VariadicUnpack(a) => {
                let a = *a;
                let forwards = signature.mutex_params.contains_key(&j) && crate::call_checks::direct_mutex_handle_symbol(
                    typed,
                    resolution,
                    &arg_facts[a],
                ).is_some();
                match type_argument(typed, resolution, context, callee, origin, expected, &values[a], forwards, false, bindings) {
                    Ok(effect) => {
                        effects.push(effect);
                    },
                    Err(e) => {
                        proof {
                            lemma_parameters_error_stays(f0, sy, o0, resolution, context, *signature, bv, values@, arg_facts@, callee@, ov, j + 1, n as int);
                        }
                        return Err(e);
                    },
                }
                proof {
                    lemma_inference_ends_later(before, typed.facts(), sy);
                }
            },
            crate::arguments::BoundCallArg::VariadicPack(list) => {
                let element = match typed.type_table().get(expected) {
                    Some(crate::types::CheckedType::Sequence { element_type }) => *element_type,
                    _ => {
                        let mut message = crate::text::owned("variadic call to '");
                        crate::text::push_text(&mut message, callee);
                        crate::text::push_text(&mut message, "' lost its sequence parameter type");
                        proof {
                            lemma_parameters_error_stays(f0, sy, o0, resolution, context, *signature, bv, values@, arg_facts@, callee@, ov, j + 1, n as int);
                        }
                        return Err(TypecheckError::new(TypecheckErrorKind::Internal, message.as_str()));
                    },
                };
                proof {
                    crate::walk::lemma_part_stored(typed.facts(), expected, element);
                    assert forall|k: int| 0 <= k < list@.len() implies (#[trigger] list@[k]) < values@.len() by {
                        assert(bv[j as int] == BoundArgView::VariadicPack(list@));
                    }
                }
                match type_pack(typed, resolution, context, callee, origin, element, list, values, bindings, effects) {
                    Ok(()) => {},
                    Err(e) => {
                        proof {
                            lemma_parameters_error_stays(f0, sy, o0, resolution, context, *signature, bv, values@, arg_facts@, callee@, ov, j + 1, n as int);
                        }
                        return Err(e);
                    },
                }
            },
            crate::arguments::BoundCallArg::Default => {},
        }
        j = j + 1;
    }
    Ok(())
}

/// Types the arguments `args` (written `values`, read as `arg_facts`) of a
/// call to `callee` with `signature`, at `origin`: `allow_named` and
/// `allow_defaults` say whether named arguments and defaults may be used,
/// `processor_task_target` whether the call starts a processor task. Gives
/// the generic parameters bound and the recoverable effect of the
/// arguments.
pub fn check_call_arguments(
    typed: &mut TypedProgram,
    resolution: &Resolution,
    context: TypeContext,
    signature: &RoutineType,
    args: &Vec<CallArgument>,
    values: &Vec<Expr>,
    arg_facts: &Vec<CallArgFacts>,
    callee: &str,
    origin: Option<SyntaxOrigin>,
    allow_named: bool,
    allow_defaults: bool,
    processor_task_target: bool,
) -> (r: Result<(crate::sorted_map::SortedMap<SymbolId, CheckedTypeId>, Option<RecoverableCallEffect>), TypecheckError>)
    requires
        walk_ready(old(typed).facts(), old(typed).symbol_facts()),
        crate::transfers::loop_walks_end(resolution, context.repeating_loop_scope),
        crate::arguments::well_shaped(signature@),
        values@.len() == args@.len(),
        arg_facts@.len() == args@.len(),
        forall|j: int| 0 <= j < signature.params@.len() ==> (#[trigger] signature.params@[j]).0 < old(typed).facts().types.len(),
        inference_always_ends(old(typed).facts(), old(typed).symbol_facts()),
    ensures
        ({
            let (out, f, o) = call_arguments_outcome(
                old(typed).facts(),
                old(typed).symbol_facts(),
                old(typed).ownership(),
                resolution,
                context,
                *signature,
                args@,
                values@,
                arg_facts@,
                callee,
                origin_view(origin),
                allow_named,
                allow_defaults,
                processor_task_target,
            );
            &&& final(typed).facts() == f
            &&& final(typed).ownership() == o
            &&& match out {
                Ok((bindings, effect)) => r matches Ok((b, e)) && b.as_map() == bindings && e == effect,
                Err(e) => r matches Err(x) && x@ == e,
            }
        }),
        walk_ready(final(typed).facts(), final(typed).symbol_facts()),
        extends(old(typed).facts(), final(typed).facts()),
        final(typed).symbol_facts() == old(typed).symbol_facts(),
{
    let ghost ov = origin_view(origin);
    let bound = match crate::arguments::bind_call_arguments(
        signature,
        args,
        callee,
        crate::ids::copy_origin(&origin),
        allow_named,
        allow_defaults,
    ) {
        Ok(b) => b,
        Err(e) => {
            return Err(e);
        },
    };
    proof {
        crate::arguments::lemma_binding_within(signature@, args@, callee, ov, allow_named, allow_defaults);
    }
    match crate::call_checks::validate_deferred_mutex_argument_forwarding(
        typed,
        resolution,
        context,
        signature,
        &bound,
        arg_facts,
        callee,
    ) {
        Ok(()) => {},
        Err(e) => {
            return Err(e);
        },
    }
    match crate::call_checks::validate_mutex_argument_forwarding(
        typed,
        resolution,
        signature,
        &bound,
        arg_facts,
        callee,
        crate::ids::copy_origin(&origin),
        processor_task_target,
    ) {
        Ok(()) => {},
        Err(e) => {
            return Err(e);
        },
    }
    match crate::call_checks::validate_call_site_borrows(
        typed,
        resolution,
        signature,
        &bound,
        arg_facts,
        callee,
        crate::ids::copy_origin(&origin),
    ) {
        Ok(()) => {},
        Err(e) => {
            return Err(e);
        },
    }
    let mut bindings: crate::sorted_map::SortedMap<SymbolId, CheckedTypeId> = crate::sorted_map::SortedMap::new();
    let mut effects: Vec<Option<RecoverableCallEffect>> = Vec::new();
    proof {
        assert(effects@ =~= Seq::<Option<RecoverableCallEffect>>::empty());
    }
    match type_parameters(typed, resolution, context, signature, &bound, values, arg_facts, callee, &origin, &mut bindings, &mut effects) {
        Ok(()) => {},
        Err(e) => {
            return Err(e);
        },
    }
    let merged = match crate::apparent::merge_recoverable_effects(typed, origin, "call arguments", &effects) {
        Ok(m) => m,
        Err(e) => {
            return Err(e);
        },
    };
    Ok((bindings, merged))
}


} // verus!
