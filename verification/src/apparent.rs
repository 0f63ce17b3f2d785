//! The apparent type behind shells, owned and borrowed wrappers and named
//! types, and the questions asked of it: channel endpoints, nil and unwrap
//! contracts, assignability, equality and ordering.
use crate::errors::{TypecheckError, TypecheckErrorKind, TypecheckErrorView};
use crate::ids::SymbolId;
use crate::model::{RecoverableCallEffect, TypedProgram, TypedSymbol};
use crate::ownership::FactsView;
use crate::render::{acyclic, rendered};
use crate::shapes::declared_type_of;
use crate::sorted_map::SortedMap;
use crate::types::{
    CheckedType, CheckedTypeId, CheckedTypeView, DeclaredTypeKind, RoutineType, RoutineTypeView,
};
use vstd::prelude::*;

verus! {

/// The type stored under `id`, if any.
pub open spec fn type_at(facts: FactsView, id: CheckedTypeId) -> Option<CheckedTypeView> {
    if id.0 < facts.types.len() {
        Some(facts.types[id.0 as int])
    } else {
        None
    }
}

/// One step of resolving a type to its apparent type.
pub enum ApparentStep {
    /// `id` is the apparent type.
    Stop(CheckedTypeId),
    /// A named type's declaration was reached a second time.
    Cycle,
    /// Go on from `next`, with the named types in `seen` already expanded.
    Next(CheckedTypeId, Set<SymbolId>),
}

/// One step of resolving `current` to its apparent type, with the named
/// types in `seen` already expanded: a recorded apparent type is followed
/// unless it is `current` itself; owned and borrowed wrappers are peeled; a
/// named type is expanded to its declared type unless it is a generic
/// parameter, has none, or declares itself; reaching a named type twice is
/// a cycle.
pub open spec fn apparent_step(
    facts: FactsView,
    symbols: Map<SymbolId, TypedSymbol>,
    current: CheckedTypeId,
    seen: Set<SymbolId>,
) -> ApparentStep {
    if facts.apparent_type_overrides.contains_key(current) {
        let next = facts.apparent_type_overrides[current];
        if next == current {
            ApparentStep::Stop(current)
        } else {
            ApparentStep::Next(next, seen)
        }
    } else {
        match type_at(facts, current) {
            Some(CheckedTypeView::Owned { inner }) => ApparentStep::Next(inner, seen),
            Some(CheckedTypeView::Borrowed { inner, .. }) => ApparentStep::Next(inner, seen),
            Some(CheckedTypeView::Declared { symbol, kind, .. }) => {
                if kind == DeclaredTypeKind::GenericParameter {
                    ApparentStep::Stop(current)
                } else if seen.contains(symbol) {
                    ApparentStep::Cycle
                } else {
                    match declared_type_of(symbols, symbol) {
                        Some(next) => if next == current {
                            ApparentStep::Stop(current)
                        } else {
                            ApparentStep::Next(next, seen.insert(symbol))
                        },
                        None => ApparentStep::Stop(current),
                    }
                }
            },
            _ => ApparentStep::Stop(current),
        }
    }
}

/// Resolving `current` within `fuel` steps: `None` when more are needed,
/// the apparent type, or `Err` on a cycle of named types.
pub open spec fn apparent_within(
    facts: FactsView,
    symbols: Map<SymbolId, TypedSymbol>,
    current: CheckedTypeId,
    seen: Set<SymbolId>,
    fuel: nat,
) -> Option<Result<CheckedTypeId, ()>>
    decreases fuel,
{
    if fuel == 0 {
        None
    } else {
        match apparent_step(facts, symbols, current, seen) {
            ApparentStep::Stop(id) => Some(Ok(id)),
            ApparentStep::Cycle => Some(Err(())),
            ApparentStep::Next(next, seen2) => apparent_within(
                facts,
                symbols,
                next,
                seen2,
                (fuel - 1) as nat,
            ),
        }
    }
}

/// Resolving `id` ends after finitely many steps.
pub open spec fn apparent_resolves(
    facts: FactsView,
    symbols: Map<SymbolId, TypedSymbol>,
    id: CheckedTypeId,
) -> bool {
    exists|n: nat| (#[trigger] apparent_within(facts, symbols, id, Set::empty(), n)) is Some
}

/// What resolving `id` ends in, when it ends.
pub open spec fn apparent_outcome(
    facts: FactsView,
    symbols: Map<SymbolId, TypedSymbol>,
    id: CheckedTypeId,
) -> Result<CheckedTypeId, ()> {
    apparent_within(
        facts,
        symbols,
        id,
        Set::empty(),
        choose|n: nat| (#[trigger] apparent_within(facts, symbols, id, Set::empty(), n)) is Some,
    )->0
}

/// The diagnostic for a cycle of named types.
pub open spec fn cycle_error() -> TypecheckErrorView {
    TypecheckErrorView {
        kind: TypecheckErrorKind::InvalidInput,
        message: "declared type expansion encountered a cycle"@,
        origin: None,
        related: seq![],
    }
}

/// A result with its error taken by view.
pub open spec fn result_view<T>(r: Result<T, TypecheckError>) -> Result<T, TypecheckErrorView> {
    match r {
        Ok(v) => Ok(v),
        Err(e) => Err(e@),
    }
}

/// The apparent type of `type_id`.
pub fn apparent_type_id(typed: &TypedProgram, type_id: CheckedTypeId) -> (r: Result<
    CheckedTypeId,
    TypecheckError,
>)
    requires
        apparent_resolves(typed.facts(), typed.symbol_facts(), type_id),
    ensures
        result_view(r) == (match apparent_outcome(typed.facts(), typed.symbol_facts(), type_id) {
            Ok(id) => Ok(id),
            Err(_) => Err(cycle_error()),
        }),
{
    let ghost f = typed.facts();
    let ghost sy = typed.symbol_facts();
    let ghost n0: nat = choose|n: nat|
        (#[trigger] apparent_within(f, sy, type_id, Set::empty(), n)) is Some;
    let ghost target = apparent_within(f, sy, type_id, Set::empty(), n0);
    let mut current = type_id;
    let mut seen: SortedMap<SymbolId, ()> = SortedMap::new();
    let ghost mut fuel: nat = n0;
    proof {
        assert(seen.as_map().dom() =~= Set::<SymbolId>::empty());
    }
    loop
        invariant
            f == typed.facts(),
            sy == typed.symbol_facts(),
            target is Some,
            target == apparent_outcome_at(f, sy, type_id),
            apparent_within(f, sy, current, seen.as_map().dom(), fuel) == target,
        decreases fuel,
    {
        let ghost step = apparent_step(f, sy, current, seen.as_map().dom());
        proof {
            assert(fuel > 0);
        }
        match typed.apparent_type_override(current) {
            Some(next) => {
                if next.0 == current.0 {
                    return Ok(current);
                }
                current = next;
                proof {
                    fuel = (fuel - 1) as nat;
                }
                continue ;
            },
            None => {},
        }
        match typed.type_table().get(current) {
            Some(CheckedType::Owned { inner }) => {
                current = *inner;
            },
            Some(CheckedType::Borrowed { inner, .. }) => {
                current = *inner;
            },
            Some(CheckedType::Declared { symbol, kind, .. }) => {
                match kind {
                    DeclaredTypeKind::GenericParameter => {
                        return Ok(current);
                    },
                    _ => {},
                }
                if seen.contains_key(symbol) {
                    return Err(
                        TypecheckError::new(
                            TypecheckErrorKind::InvalidInput,
                            "declared type expansion encountered a cycle",
                        ),
                    );
                }
                let next = match typed.typed_symbol(*symbol) {
                    Some(declared) => match declared.declared_type {
                        Some(next) => next,
                        None => {
                            return Ok(current);
                        },
                    },
                    None => {
                        return Ok(current);
                    },
                };
                if next.0 == current.0 {
                    return Ok(current);
                }
                let ghost before = seen.as_map().dom();
                seen.insert(*symbol, ());
                proof {
                    assert(seen.as_map().dom() =~= before.insert(*symbol));
                }
                current = next;
            },
            _ => {
                return Ok(current);
            },
        }
        proof {
            fuel = (fuel - 1) as nat;
        }
    }
}

/// `apparent_within` at the fuel `apparent_outcome` picks.
pub open spec fn apparent_outcome_at(
    facts: FactsView,
    symbols: Map<SymbolId, TypedSymbol>,
    id: CheckedTypeId,
) -> Option<Result<CheckedTypeId, ()>> {
    apparent_within(
        facts,
        symbols,
        id,
        Set::empty(),
        choose|n: nat| (#[trigger] apparent_within(facts, symbols, id, Set::empty(), n)) is Some,
    )
}

/// The rendering of type `type_id`, as diagnostics show it.
pub fn describe_type(typed: &TypedProgram, type_id: CheckedTypeId) -> (r: String)
    requires
        acyclic(typed.facts().types),
    ensures
        r@ == rendered(typed.facts().types, type_id),
{
    typed.type_table().render_type(type_id)
}

/// `head`, then the rendering of type `type_id`, then a closing quote.
fn message_naming(typed: &TypedProgram, head: &str, type_id: CheckedTypeId) -> (r: String)
    requires
        acyclic(typed.facts().types),
    ensures
        r@ == head@ + rendered(typed.facts().types, type_id) + "'"@,
{
    let mut message = crate::text::owned(head);
    let name = describe_type(typed, type_id);
    crate::text::push_text(&mut message, name.as_str());
    crate::text::push_text(&mut message, "'");
    message
}

/// The element type reached through a channel endpoint of type `id`: a full
/// channel or a sender, behind shells.
pub open spec fn channel_element_outcome(
    facts: FactsView,
    symbols: Map<SymbolId, TypedSymbol>,
    id: CheckedTypeId,
) -> Result<CheckedTypeId, TypecheckErrorView> {
    match apparent_outcome(facts, symbols, id) {
        Err(_) => Err(cycle_error()),
        Ok(a) => match type_at(facts, a) {
            Some(CheckedTypeView::Channel { element_type }) => Ok(element_type),
            Some(CheckedTypeView::ChannelSender { element_type }) => Ok(element_type),
            _ => Err(
                TypecheckErrorView {
                    kind: TypecheckErrorKind::InvalidInput,
                    message: "channel endpoint access requires chn[T], got '"@ + rendered(
                        facts.types,
                        id,
                    ) + "'"@,
                    origin: None,
                    related: seq![],
                },
            ),
        },
    }
}

/// The element type of the channel endpoint of type `channel_type`.
pub fn channel_element_type(typed: &TypedProgram, channel_type: CheckedTypeId) -> (r: Result<
    CheckedTypeId,
    TypecheckError,
>)
    requires
        apparent_resolves(typed.facts(), typed.symbol_facts(), channel_type),
        acyclic(typed.facts().types),
    ensures
        result_view(r) == channel_element_outcome(
            typed.facts(),
            typed.symbol_facts(),
            channel_type,
        ),
{
    let apparent = match apparent_type_id(typed, channel_type) {
        Ok(a) => a,
        Err(e) => {
            return Err(e);
        },
    };
    match typed.type_table().get(apparent) {
        Some(CheckedType::Channel { element_type }) => Ok(*element_type),
        Some(CheckedType::ChannelSender { element_type }) => Ok(*element_type),
        _ => {
            let message = message_naming(
                typed,
                "channel endpoint access requires chn[T], got '",
                channel_type,
            );
            Err(TypecheckError::new(TypecheckErrorKind::InvalidInput, message.as_str()))
        },
    }
}

/// The element type received through an endpoint of type `id`: a full
/// channel receives on its own receiver, a receiver endpoint through its
/// handle; a sender cannot receive.
pub open spec fn channel_receiver_element_outcome(
    facts: FactsView,
    symbols: Map<SymbolId, TypedSymbol>,
    id: CheckedTypeId,
) -> Result<CheckedTypeId, TypecheckErrorView> {
    match apparent_outcome(facts, symbols, id) {
        Err(_) => Err(cycle_error()),
        Ok(a) => match type_at(facts, a) {
            Some(CheckedTypeView::Channel { element_type }) => Ok(element_type),
            Some(CheckedTypeView::ChannelReceiver { element_type }) => Ok(element_type),
            Some(CheckedTypeView::ChannelSender { .. }) => Err(
                TypecheckErrorView {
                    kind: TypecheckErrorKind::Ownership,
                    message: "sender-only channel endpoints cannot receive; keep the single receiver in the owning routine"@,
                    origin: None,
                    related: seq![],
                },
            ),
            _ => Err(
                TypecheckErrorView {
                    kind: TypecheckErrorKind::InvalidInput,
                    message: "channel receive requires chn[T], got '"@ + rendered(facts.types, id)
                        + "'"@,
                    origin: None,
                    related: seq![],
                },
            ),
        },
    }
}

/// The element type received through the endpoint of type `channel_type`.
pub fn channel_receiver_element_type(typed: &TypedProgram, channel_type: CheckedTypeId) -> (r: Result<
    CheckedTypeId,
    TypecheckError,
>)
    requires
        apparent_resolves(typed.facts(), typed.symbol_facts(), channel_type),
        acyclic(typed.facts().types),
    ensures
        result_view(r) == channel_receiver_element_outcome(
            typed.facts(),
            typed.symbol_facts(),
            channel_type,
        ),
{
    let apparent = match apparent_type_id(typed, channel_type) {
        Ok(a) => a,
        Err(e) => {
            return Err(e);
        },
    };
    match typed.type_table().get(apparent) {
        Some(CheckedType::Channel { element_type }) => Ok(*element_type),
        Some(CheckedType::ChannelReceiver { element_type }) => Ok(*element_type),
        Some(CheckedType::ChannelSender { .. }) => Err(
            TypecheckError::new(
                TypecheckErrorKind::Ownership,
                "sender-only channel endpoints cannot receive; keep the single receiver in the owning routine",
            ),
        ),
        _ => {
            let message = message_naming(typed, "channel receive requires chn[T], got '", channel_type);
            Err(TypecheckError::new(TypecheckErrorKind::InvalidInput, message.as_str()))
        },
    }
}

/// Whether an expected type is given and resolves to a receiver endpoint.
pub open spec fn expects_receiver(
    facts: FactsView,
    symbols: Map<SymbolId, TypedSymbol>,
    expected_type: Option<CheckedTypeId>,
) -> bool {
    match expected_type {
        Some(t) => match apparent_outcome(facts, symbols, t) {
            Ok(a) => type_at(facts, a) matches Some(CheckedTypeView::ChannelReceiver { .. }),
            Err(_) => false,
        },
        None => false,
    }
}

/// Whether the expected type, when one is given, is a receiver endpoint
/// behind its shells; a type whose resolution meets a cycle is not.
pub fn expected_is_channel_receiver(typed: &TypedProgram, expected_type: Option<CheckedTypeId>) -> (r:
    bool)
    requires
        expected_type matches Some(t) ==> apparent_resolves(typed.facts(), typed.symbol_facts(), t),
    ensures
        r == expects_receiver(typed.facts(), typed.symbol_facts(), expected_type),
{
    let expected_type = match expected_type {
        Some(t) => t,
        None => {
            return false;
        },
    };
    let apparent = match apparent_type_id(typed, expected_type) {
        Ok(a) => a,
        Err(_) => {
            return false;
        },
    };
    match typed.type_table().get(apparent) {
        Some(CheckedType::ChannelReceiver { .. }) => true,
        _ => false,
    }
}

/// Whether the apparent type of `id` is an optional or error shell, the
/// expected types `nil` can stand for.
pub open spec fn is_nil_shell(facts: FactsView, a: CheckedTypeId) -> bool {
    match type_at(facts, a) {
        Some(CheckedTypeView::Optional { .. }) => true,
        Some(CheckedTypeView::Error { .. }) => true,
        _ => false,
    }
}

/// The expected type `nil` is checked against: the expected type itself
/// when its apparent type is an optional or error shell, else none.
pub fn expected_nil_shell_type(typed: &TypedProgram, expected_type: Option<CheckedTypeId>) -> (r: Result<
    Option<CheckedTypeId>,
    TypecheckError,
>)
    requires
        expected_type matches Some(e) ==> apparent_resolves(typed.facts(), typed.symbol_facts(), e),
    ensures
        result_view(r) == (match expected_type {
            None => Ok(None),
            Some(e) => match apparent_outcome(typed.facts(), typed.symbol_facts(), e) {
                Err(_) => Err(cycle_error()),
                Ok(a) => Ok(
                    if is_nil_shell(typed.facts(), a) {
                        Some(e)
                    } else {
                        None
                    },
                ),
            },
        }),
{
    let expected = match expected_type {
        Some(e) => e,
        None => {
            return Ok(None);
        },
    };
    let apparent = match apparent_type_id(typed, expected) {
        Ok(a) => a,
        Err(e) => {
            return Err(e);
        },
    };
    match typed.type_table().get(apparent) {
        Some(CheckedType::Optional { .. }) => Ok(Some(expected)),
        Some(CheckedType::Error { .. }) => Ok(Some(expected)),
        _ => Ok(None),
    }
}

/// Whether the apparent type of `type_id` is an error shell.
pub fn is_error_shell_type(typed: &TypedProgram, type_id: CheckedTypeId) -> (r: Result<
    bool,
    TypecheckError,
>)
    requires
        apparent_resolves(typed.facts(), typed.symbol_facts(), type_id),
    ensures
        result_view(r) == (match apparent_outcome(typed.facts(), typed.symbol_facts(), type_id) {
            Err(_) => Err(cycle_error()),
            Ok(a) => Ok(type_at(typed.facts(), a) matches Some(CheckedTypeView::Error { .. })),
        }),
{
    let apparent = match apparent_type_id(typed, type_id) {
        Ok(a) => a,
        Err(e) => {
            return Err(e);
        },
    };
    match typed.type_table().get(apparent) {
        Some(CheckedType::Error { .. }) => Ok(true),
        _ => Ok(false),
    }
}

/// The value type an unwrap of a shell of apparent type `a` yields: the
/// payload of an optional or of a typed error shell.
pub open spec fn unwrapped(facts: FactsView, a: CheckedTypeId) -> Option<CheckedTypeId> {
    match type_at(facts, a) {
        Some(CheckedTypeView::Optional { inner }) => Some(inner),
        Some(CheckedTypeView::Error { inner }) => inner,
        _ => None,
    }
}

/// The value type an unwrap of an operand of type `operand_type` yields.
pub fn unwrap_shell_result_type(typed: &TypedProgram, operand_type: CheckedTypeId) -> (r: Result<
    Option<CheckedTypeId>,
    TypecheckError,
>)
    requires
        apparent_resolves(typed.facts(), typed.symbol_facts(), operand_type),
    ensures
        result_view(r) == (match apparent_outcome(
            typed.facts(),
            typed.symbol_facts(),
            operand_type,
        ) {
            Err(_) => Err(cycle_error()),
            Ok(a) => Ok(unwrapped(typed.facts(), a)),
        }),
{
    let apparent = match apparent_type_id(typed, operand_type) {
        Ok(a) => a,
        Err(e) => {
            return Err(e);
        },
    };
    match typed.type_table().get(apparent) {
        Some(CheckedType::Optional { inner }) => Ok(Some(*inner)),
        Some(CheckedType::Error { inner }) => Ok(*inner),
        _ => Ok(None),
    }
}

/// Whether `type_id`, or the type recorded as its apparent type, is an
/// eventual.
pub fn type_is_eventual(typed: &TypedProgram, type_id: CheckedTypeId) -> (r: bool)
    ensures
        r == (type_at(
            typed.facts(),
            if typed.facts().apparent_type_overrides.contains_key(type_id) {
                typed.facts().apparent_type_overrides[type_id]
            } else {
                type_id
            },
        ) matches Some(CheckedTypeView::Eventual { .. })),
{
    let resolved = match typed.apparent_type_override(type_id) {
        Some(a) => a,
        None => type_id,
    };
    match typed.type_table().get(resolved) {
        Some(CheckedType::Eventual { .. }) => true,
        _ => false,
    }
}

/// Whether `type_id` is an eventual with an error channel.
pub fn is_recoverable_eventual_type(typed: &TypedProgram, type_id: CheckedTypeId) -> (r: bool)
    ensures
        r == (type_at(typed.facts(), type_id) matches Some(
            CheckedTypeView::Eventual { error_type: Some(_), .. },
        )),
{
    match typed.type_table().get(type_id) {
        Some(CheckedType::Eventual { error_type: Some(_), .. }) => true,
        _ => false,
    }
}

/// Two routine types have the same callable shape: parameters, results,
/// variadic position, mutex parameters and generics; parameter names and
/// defaults do not count.
pub open spec fn same_shape(a: RoutineTypeView, b: RoutineTypeView) -> bool {
    &&& a.params == b.params
    &&& a.return_type == b.return_type
    &&& a.error_type == b.error_type
    &&& a.variadic_index == b.variadic_index
    &&& a.mutex_params == b.mutex_params
    &&& a.generic_params == b.generic_params
    &&& a.generic_constraints == b.generic_constraints
}

fn same_routine_shape(a: &RoutineType, b: &RoutineType) -> (r: bool)
    ensures
        r == same_shape(a@, b@),
{
    let same_variadic = match (a.variadic_index, b.variadic_index) {
        (Some(x), Some(y)) => x == y,
        (None, None) => true,
        _ => false,
    };
    crate::types::same_ids(&a.params, &b.params) && crate::types::same_opt_id(
        a.return_type,
        b.return_type,
    ) && crate::types::same_opt_id(a.error_type, b.error_type) && same_variadic
        && crate::types::same_positions(&a.mutex_params, &b.mutex_params)
        && crate::types::same_symbols(&a.generic_params, &b.generic_params)
        && crate::types::same_constraint_maps(&a.generic_constraints, &b.generic_constraints)
}

/// The payload type whose apparent type an optional or typed error shell of
/// apparent type `a` accepts.
pub open spec fn shell_payload(facts: FactsView, a: CheckedTypeId) -> Option<CheckedTypeId> {
    match type_at(facts, a) {
        Some(CheckedTypeView::Optional { inner }) => Some(inner),
        Some(CheckedTypeView::Error { inner: Some(inner) }) => Some(inner),
        _ => None,
    }
}

/// Every apparent type the assignability check of `actual` to `expected`
/// resolves ends after finitely many steps.
pub open spec fn v1_assignable_resolves(
    facts: FactsView,
    symbols: Map<SymbolId, TypedSymbol>,
    never: CheckedTypeId,
    expected: CheckedTypeId,
    actual: CheckedTypeId,
) -> bool {
    actual == never || {
        &&& apparent_resolves(facts, symbols, expected)
        &&& (apparent_outcome(facts, symbols, expected) is Ok ==> apparent_resolves(
            facts,
            symbols,
            actual,
        ))
        &&& match (
            apparent_outcome(facts, symbols, expected),
            apparent_outcome(facts, symbols, actual),
        ) {
            (Ok(ea), Ok(aa)) => (expected != actual && ea != aa && shell_payload(facts, ea) is Some)
                ==> apparent_resolves(facts, symbols, shell_payload(facts, ea)->0),
            _ => true,
        }
    }
}

/// Whether a value of type `actual` may be assigned where `expected` is
/// expected: a never-returning value goes anywhere; otherwise the types or
/// their apparent types agree, or a full channel goes to a sender of the
/// same element type, a value to an owned shell around it, a value to an
/// optional or typed error shell whose payload has its apparent type, or a
/// routine to a routine type of the same shape.
pub open spec fn v1_assignable(
    facts: FactsView,
    symbols: Map<SymbolId, TypedSymbol>,
    never: CheckedTypeId,
    expected: CheckedTypeId,
    actual: CheckedTypeId,
) -> Result<bool, TypecheckErrorView> {
    if actual == never {
        Ok(true)
    } else {
        match apparent_outcome(facts, symbols, expected) {
            Err(_) => Err(cycle_error()),
            Ok(ea) => match apparent_outcome(facts, symbols, actual) {
                Err(_) => Err(cycle_error()),
                Ok(aa) => if expected == actual || ea == aa {
                    Ok(true)
                } else {
                    match type_at(facts, ea) {
                        Some(CheckedTypeView::ChannelSender { element_type }) => Ok(
                            type_at(facts, aa) == Some(CheckedTypeView::Channel { element_type }),
                        ),
                        Some(CheckedTypeView::Owned { inner }) => Ok(inner == aa),
                        Some(CheckedTypeView::Optional { inner }) => match apparent_outcome(
                            facts,
                            symbols,
                            inner,
                        ) {
                            Ok(i) => Ok(i == aa),
                            Err(_) => Err(cycle_error()),
                        },
                        Some(CheckedTypeView::Error { inner: Some(inner) }) => match apparent_outcome(
                            facts,
                            symbols,
                            inner,
                        ) {
                            Ok(i) => Ok(i == aa),
                            Err(_) => Err(cycle_error()),
                        },
                        Some(CheckedTypeView::Routine(er)) => Ok(
                            match type_at(facts, aa) {
                                Some(CheckedTypeView::Routine(ar)) => same_shape(er, ar),
                                _ => false,
                            },
                        ),
                        _ => Ok(false),
                    }
                },
            },
        }
    }
}

/// Whether a value of type `actual` may be assigned where `expected` is
/// expected; `never` is the never-returning type.
pub fn is_v1_assignable(
    typed: &TypedProgram,
    never: CheckedTypeId,
    expected: CheckedTypeId,
    actual: CheckedTypeId,
) -> (r: Result<bool, TypecheckError>)
    requires
        v1_assignable_resolves(typed.facts(), typed.symbol_facts(), never, expected, actual),
    ensures
        result_view(r) == v1_assignable(
            typed.facts(),
            typed.symbol_facts(),
            never,
            expected,
            actual,
        ),
{
    if actual.0 == never.0 {
        return Ok(true);
    }
    let expected_apparent = match apparent_type_id(typed, expected) {
        Ok(a) => a,
        Err(e) => {
            return Err(e);
        },
    };
    let actual_apparent = match apparent_type_id(typed, actual) {
        Ok(a) => a,
        Err(e) => {
            return Err(e);
        },
    };
    if expected.0 == actual.0 || expected_apparent.0 == actual_apparent.0 {
        return Ok(true);
    }
    match typed.type_table().get(expected_apparent) {
        Some(CheckedType::ChannelSender { element_type: expected_element }) => Ok(
            match typed.type_table().get(actual_apparent) {
                Some(CheckedType::Channel { element_type: actual_element }) => actual_element.0
                    == expected_element.0,
                _ => false,
            },
        ),
        Some(CheckedType::Owned { inner }) => Ok(inner.0 == actual_apparent.0),
        Some(CheckedType::Optional { inner }) => match apparent_type_id(typed, *inner) {
            Ok(i) => Ok(i.0 == actual_apparent.0),
            Err(e) => Err(e),
        },
        Some(CheckedType::Error { inner: Some(inner) }) => match apparent_type_id(typed, *inner) {
            Ok(i) => Ok(i.0 == actual_apparent.0),
            Err(e) => Err(e),
        },
        Some(CheckedType::Routine(expected_routine)) => Ok(
            match typed.type_table().get(actual_apparent) {
                Some(CheckedType::Routine(actual_routine)) => same_routine_shape(
                    expected_routine,
                    actual_routine,
                ),
                _ => false,
            },
        ),
        _ => Ok(false),
    }
}

/// Whether generic parameter `symbol` is bounded by `ord`.
pub open spec fn bounded_by_ord(facts: FactsView, symbol: SymbolId) -> bool {
    facts.generic_capability_constraints.contains_key(symbol)
        && facts.generic_capability_constraints[symbol].contains("ord"@)
}

fn has_ord_bound(typed: &TypedProgram, symbol: SymbolId) -> (r: bool)
    ensures
        r == bounded_by_ord(typed.facts(), symbol),
{
    match typed.generic_capability_constraints(symbol) {
        Some(bounds) => {
            let ord = crate::text::owned("ord");
            bounds.contains_key(&ord)
        },
        None => false,
    }
}

/// Whether values of type `type_id` can be compared with `==`: integers,
/// floats, booleans, characters, strings, entries, and generic parameters
/// bounded by `ord`.
pub open spec fn equality_type(facts: FactsView, type_id: CheckedTypeId) -> bool {
    match type_at(facts, type_id) {
        Some(CheckedTypeView::Declared { kind, symbol, .. }) => kind
            == DeclaredTypeKind::GenericParameter && bounded_by_ord(facts, symbol),
        Some(CheckedTypeView::Builtin(b)) => match b {
            crate::types::BuiltinType::Never => false,
            _ => true,
        },
        Some(CheckedTypeView::Entry { .. }) => true,
        _ => false,
    }
}

/// Whether values of type `type_id` can be compared with `==`.
pub fn is_equality_type(typed: &TypedProgram, type_id: CheckedTypeId) -> (r: bool)
    ensures
        r == equality_type(typed.facts(), type_id),
{
    match typed.type_table().get(type_id) {
        Some(CheckedType::Declared { kind: DeclaredTypeKind::GenericParameter, symbol, .. }) => {
            has_ord_bound(typed, *symbol)
        },
        Some(CheckedType::Builtin(b)) => match b {
            crate::types::BuiltinType::Never => false,
            _ => true,
        },
        Some(CheckedType::Entry { .. }) => true,
        _ => false,
    }
}

/// Whether values of type `type_id` can be ordered: integers, floats,
/// characters, strings, and generic parameters bounded by `ord`.
pub open spec fn ordered_type(facts: FactsView, type_id: CheckedTypeId) -> bool {
    match type_at(facts, type_id) {
        Some(CheckedTypeView::Declared { kind, symbol, .. }) => kind
            == DeclaredTypeKind::GenericParameter && bounded_by_ord(facts, symbol),
        Some(CheckedTypeView::Builtin(b)) => match b {
            crate::types::BuiltinType::Int(_) => true,
            crate::types::BuiltinType::Float(_) => true,
            crate::types::BuiltinType::Char(_) => true,
            crate::types::BuiltinType::Str => true,
            _ => false,
        },
        _ => false,
    }
}

/// Whether values of type `type_id` can be ordered.
pub fn is_ordered_type(typed: &TypedProgram, type_id: CheckedTypeId) -> (r: bool)
    ensures
        r == ordered_type(typed.facts(), type_id),
{
    match typed.type_table().get(type_id) {
        Some(CheckedType::Declared { kind: DeclaredTypeKind::GenericParameter, symbol, .. }) => {
            has_ord_bound(typed, *symbol)
        },
        Some(CheckedType::Builtin(b)) => match b {
            crate::types::BuiltinType::Int(_) => true,
            crate::types::BuiltinType::Float(_) => true,
            crate::types::BuiltinType::Char(_) => true,
            crate::types::BuiltinType::Str => true,
            _ => false,
        },
        _ => false,
    }
}

/// Merging the recoverable error effects of the first `n` of `effects`:
/// the first effect present, or the first pair of present effects whose
/// error types differ.
pub open spec fn merged_effects(effects: Seq<Option<RecoverableCallEffect>>, n: int) -> Result<
    Option<RecoverableCallEffect>,
    (RecoverableCallEffect, RecoverableCallEffect),
>
    decreases n,
{
    if n <= 0 {
        Ok(None)
    } else {
        match merged_effects(effects, n - 1) {
            Err(pair) => Err(pair),
            Ok(merged) => match effects[n - 1] {
                None => Ok(merged),
                Some(effect) => match merged {
                    None => Ok(Some(effect)),
                    Some(existing) => if existing.error_type == effect.error_type {
                        Ok(Some(existing))
                    } else {
                        Err((existing, effect))
                    },
                },
            },
        }
    }
}

/// The diagnostic for `usage` mixing the error types of `existing` and
/// `effect`.
pub open spec fn mixed_effects_error(
    facts: FactsView,
    usage: Seq<char>,
    existing: RecoverableCallEffect,
    effect: RecoverableCallEffect,
    origin: Option<crate::ids::SyntaxOriginView>,
) -> TypecheckErrorView {
    TypecheckErrorView {
        kind: TypecheckErrorKind::IncompatibleType,
        message: usage + " mixes incompatible recoverable error types '"@ + rendered(
            facts.types,
            existing.error_type,
        ) + "' and '"@ + rendered(facts.types, effect.error_type) + "'"@,
        origin,
        related: seq![],
    }
}

/// The one recoverable error effect the present `effects` of `usage` share,
/// or a diagnostic at `origin` when two of them differ.
pub fn merge_recoverable_effects(
    typed: &TypedProgram,
    origin: Option<crate::ids::SyntaxOrigin>,
    usage: &str,
    effects: &Vec<Option<RecoverableCallEffect>>,
) -> (r: Result<Option<RecoverableCallEffect>, TypecheckError>)
    requires
        acyclic(typed.facts().types),
    ensures
        result_view(r) == (match merged_effects(effects@, effects@.len() as int) {
            Ok(merged) => Ok(merged),
            Err(pair) => Err(
                mixed_effects_error(
                    typed.facts(),
                    usage@,
                    pair.0,
                    pair.1,
                    match origin {
                        Some(o) => Some(o@),
                        None => None,
                    },
                ),
            ),
        }),
{
    let mut merged: Option<RecoverableCallEffect> = None;
    let mut i: usize = 0;
    while i < effects.len()
        invariant
            i <= effects@.len(),
            acyclic(typed.facts().types),
            merged_effects(effects@, i as int) == Ok::<
                Option<RecoverableCallEffect>,
                (RecoverableCallEffect, RecoverableCallEffect),
            >(merged),
        decreases effects@.len() - i,
    {
        match effects[i] {
            None => {},
            Some(effect) => match merged {
                None => {
                    merged = Some(effect);
                },
                Some(existing) => {
                    if existing.error_type.0 != effect.error_type.0 {
                        let mut message = crate::text::owned(usage);
                        crate::text::push_text(
                            &mut message,
                            " mixes incompatible recoverable error types '",
                        );
                        let first = describe_type(typed, existing.error_type);
                        crate::text::push_text(&mut message, first.as_str());
                        crate::text::push_text(&mut message, "' and '");
                        let second = describe_type(typed, effect.error_type);
                        crate::text::push_text(&mut message, second.as_str());
                        crate::text::push_text(&mut message, "'");
                        proof {
                            assert(merged_effects(effects@, i + 1) == Err::<
                                Option<RecoverableCallEffect>,
                                (RecoverableCallEffect, RecoverableCallEffect),
                            >((existing, effect)));
                            lemma_merged_effects_stays_failed(effects@, i + 1, effects@.len() as int);
                        }
                        return Err(
                            TypecheckError::at(
                                TypecheckErrorKind::IncompatibleType,
                                message.as_str(),
                                origin,
                            ),
                        );
                    }
                },
            },
        }
        i = i + 1;
    }
    Ok(merged)
}

/// Once two effects differed, merging more effects keeps that pair.
pub proof fn lemma_merged_effects_stays_failed(
    effects: Seq<Option<RecoverableCallEffect>>,
    n: int,
    m: int,
)
    requires
        0 <= n <= m,
        merged_effects(effects, n) is Err,
    ensures
        merged_effects(effects, m) == merged_effects(effects, n),
    decreases m - n,
{
    if n < m {
        lemma_merged_effects_stays_failed(effects, n, m - 1);
    }
}

/// Resolution that ends in `a` ends on a type that stops resolution at
/// once, whatever was expanded before.
proof fn lemma_outcome_stops(
    facts: FactsView,
    symbols: Map<SymbolId, TypedSymbol>,
    current: CheckedTypeId,
    seen: Set<SymbolId>,
    fuel: nat,
    a: CheckedTypeId,
)
    requires
        apparent_within(facts, symbols, current, seen, fuel) == Some(Ok::<CheckedTypeId, ()>(a)),
    ensures
        apparent_step(facts, symbols, a, Set::empty()) == ApparentStep::Stop(a),
    decreases fuel,
{
    match apparent_step(facts, symbols, current, seen) {
        ApparentStep::Next(next, seen2) => {
            lemma_outcome_stops(facts, symbols, next, seen2, (fuel - 1) as nat, a);
        },
        _ => {},
    }
}

/// The apparent type of a type is its own apparent type: resolving twice
/// gives what resolving once gave. It is no owned or borrowed wrapper
/// unless a recorded apparent type says so, and a type with a recorded
/// apparent type resolves to it only where that is the type itself.
pub proof fn law_apparent_type_is_settled(
    facts: FactsView,
    symbols: Map<SymbolId, TypedSymbol>,
    id: CheckedTypeId,
    a: CheckedTypeId,
)
    requires
        apparent_resolves(facts, symbols, id),
        apparent_outcome(facts, symbols, id) == Ok::<CheckedTypeId, ()>(a),
    ensures
        apparent_resolves(facts, symbols, a),
        apparent_outcome(facts, symbols, a) == Ok::<CheckedTypeId, ()>(a),
        (type_at(facts, a) matches Some(CheckedTypeView::Owned { .. }) || type_at(facts, a) matches Some(
            CheckedTypeView::Borrowed { .. },
        )) ==> facts.apparent_type_overrides.contains_key(a),
        facts.apparent_type_overrides.contains_key(a) ==> facts.apparent_type_overrides[a] == a,
{
    let n = choose|n: nat| (#[trigger] apparent_within(facts, symbols, id, Set::empty(), n)) is Some;
    lemma_outcome_stops(facts, symbols, id, Set::empty(), n, a);
    assert(apparent_within(facts, symbols, a, Set::empty(), 1) is Some);
    let m = choose|m: nat| (#[trigger] apparent_within(facts, symbols, a, Set::empty(), m)) is Some;
    assert(m > 0);
}

/// A type whose apparent type resolves may be assigned where it is itself
/// expected, and a never-returning value may be assigned anywhere.
pub proof fn law_assignability_is_reflexive(
    facts: FactsView,
    symbols: Map<SymbolId, TypedSymbol>,
    never: CheckedTypeId,
    t: CheckedTypeId,
    expected: CheckedTypeId,
)
    ensures
        apparent_resolves(facts, symbols, t) && apparent_outcome(facts, symbols, t) is Ok
            ==> v1_assignable(facts, symbols, never, t, t) == Ok::<bool, TypecheckErrorView>(true),
        v1_assignable(facts, symbols, never, expected, never) == Ok::<bool, TypecheckErrorView>(
            true,
        ),
{
}

/// Once resolution has ended within some steps, more steps end it the
/// same way.
proof fn lemma_more_fuel_same_outcome(
    facts: FactsView,
    symbols: Map<SymbolId, TypedSymbol>,
    current: CheckedTypeId,
    seen: Set<SymbolId>,
    n: nat,
    m: nat,
)
    requires
        n <= m,
        apparent_within(facts, symbols, current, seen, n) is Some,
    ensures
        apparent_within(facts, symbols, current, seen, m) == apparent_within(
            facts,
            symbols,
            current,
            seen,
            n,
        ),
    decreases n,
{
    match apparent_step(facts, symbols, current, seen) {
        ApparentStep::Next(next, seen2) => {
            lemma_more_fuel_same_outcome(
                facts,
                symbols,
                next,
                seen2,
                (n - 1) as nat,
                (m - 1) as nat,
            );
        },
        _ => {},
    }
}

/// An owned or borrowed wrapper with no recorded apparent type resolves to
/// what the wrapped type resolves to.
pub proof fn law_shells_are_transparent(
    facts: FactsView,
    symbols: Map<SymbolId, TypedSymbol>,
    wrapper: CheckedTypeId,
    inner: CheckedTypeId,
)
    requires
        !facts.apparent_type_overrides.contains_key(wrapper),
        type_at(facts, wrapper) matches Some(t) && (t == CheckedTypeView::Owned { inner } || (
        t matches CheckedTypeView::Borrowed { inner: i, .. } && i == inner)),
        apparent_resolves(facts, symbols, inner),
    ensures
        apparent_resolves(facts, symbols, wrapper),
        apparent_outcome(facts, symbols, wrapper) == apparent_outcome(facts, symbols, inner),
{
    let e = Set::<SymbolId>::empty();
    let n = choose|n: nat| (#[trigger] apparent_within(facts, symbols, inner, e, n)) is Some;
    assert(apparent_step(facts, symbols, wrapper, e) == ApparentStep::Next(inner, e));
    assert(apparent_within(facts, symbols, wrapper, e, n + 1) == apparent_within(
        facts,
        symbols,
        inner,
        e,
        n,
    ));
    let m = choose|m: nat| (#[trigger] apparent_within(facts, symbols, wrapper, e, m)) is Some;
    if m <= n + 1 {
        lemma_more_fuel_same_outcome(facts, symbols, wrapper, e, m, n + 1);
    } else {
        lemma_more_fuel_same_outcome(facts, symbols, wrapper, e, n + 1, m);
    }
}

/// A value may go where an optional of its apparent type is expected, and
/// a full channel where a sender of the same element type is expected.
pub proof fn law_optional_and_sender_accept_their_payload(
    facts: FactsView,
    symbols: Map<SymbolId, TypedSymbol>,
    never: CheckedTypeId,
    expected: CheckedTypeId,
    actual: CheckedTypeId,
)
    requires
        apparent_outcome(facts, symbols, expected) is Ok,
        apparent_outcome(facts, symbols, actual) is Ok,
    ensures
        ({
            let ea = apparent_outcome(facts, symbols, expected)->Ok_0;
            let aa = apparent_outcome(facts, symbols, actual)->Ok_0;
            &&& (type_at(facts, ea) matches Some(CheckedTypeView::Optional { inner })
                && apparent_outcome(facts, symbols, inner) == Ok::<CheckedTypeId, ()>(aa))
                ==> v1_assignable(facts, symbols, never, expected, actual) == Ok::<
                bool,
                TypecheckErrorView,
            >(true)
            &&& (type_at(facts, ea) matches Some(CheckedTypeView::ChannelSender { element_type })
                && type_at(facts, aa) == Some(CheckedTypeView::Channel { element_type }))
                ==> v1_assignable(facts, symbols, never, expected, actual) == Ok::<
                bool,
                TypecheckErrorView,
            >(true)
        }),
{
}

/// Where a sender is expected and a full channel is given (the types and
/// their apparent types differ, and the value does return), the channel is
/// assignable exactly when its element type is the sender's.
pub proof fn law_channel_fits_a_sender_of_its_element(
    facts: FactsView,
    symbols: Map<SymbolId, TypedSymbol>,
    never: CheckedTypeId,
    expected: CheckedTypeId,
    actual: CheckedTypeId,
    ea: CheckedTypeId,
    aa: CheckedTypeId,
    sent: CheckedTypeId,
    carried: CheckedTypeId,
)
    requires
        actual != never,
        expected != actual,
        ea != aa,
        apparent_outcome(facts, symbols, expected) == Ok::<CheckedTypeId, ()>(ea),
        apparent_outcome(facts, symbols, actual) == Ok::<CheckedTypeId, ()>(aa),
        type_at(facts, ea) == Some(CheckedTypeView::ChannelSender { element_type: sent }),
        type_at(facts, aa) == Some(CheckedTypeView::Channel { element_type: carried }),
    ensures
        v1_assignable(facts, symbols, never, expected, actual) == Ok::<bool, TypecheckErrorView>(carried == sent),
{
}

} // verus!
