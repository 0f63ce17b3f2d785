//! Calls into generic routines: checking that an argument may be passed
//! where a parameter type is expected, and inferring the generic parameters
//! of a routine from the types of the arguments it is called with.
use crate::apparent::{
    apparent_outcome, apparent_resolves, apparent_type_id, cycle_error, describe_type,
    is_v1_assignable, result_view, type_at, v1_assignable, v1_assignable_resolves,
};
use crate::errors::{TypecheckError, TypecheckErrorKind, TypecheckErrorView};
use crate::ids::{copy_origin, SymbolId, SyntaxOrigin, SyntaxOriginView};
use crate::model::{TypedProgram, TypedSymbol};
use crate::ownership::FactsView;
use crate::rejections::origin_view;
use crate::render::{acyclic, rendered};
use crate::sorted_map::{seq_to_map, SortedMap};
use crate::text::{decimal, decimal_text, owned, push_text};
use crate::types::{CheckedType, CheckedTypeId, CheckedTypeView, DeclaredTypeKind};
use vstd::prelude::*;

verus! {

/// The diagnostic for an argument of type `actual` where `expected` is
/// expected: "`surface` expects 'E' but got 'A'", with both types rendered.
pub open spec fn mismatch_error(
    types: Seq<CheckedTypeView>,
    surface: Seq<char>,
    expected: CheckedTypeId,
    actual: CheckedTypeId,
    origin: Option<SyntaxOriginView>,
) -> TypecheckErrorView {
    TypecheckErrorView {
        kind: TypecheckErrorKind::IncompatibleType,
        message: surface + " expects '"@ + rendered(types, expected) + "' but got '"@ + rendered(
            types,
            actual,
        ) + "'"@,
        origin,
        related: seq![],
    }
}

/// What checking that `actual` may be assigned to `expected` comes to:
/// success when it may, the mismatch diagnostic when it may not, and the
/// cycle diagnostic when resolving an apparent type meets a cycle.
pub open spec fn assignment_outcome(
    facts: FactsView,
    symbols: Map<SymbolId, TypedSymbol>,
    never: CheckedTypeId,
    expected: CheckedTypeId,
    actual: CheckedTypeId,
    surface: Seq<char>,
    origin: Option<SyntaxOriginView>,
) -> Result<(), TypecheckErrorView> {
    match v1_assignable(facts, symbols, never, expected, actual) {
        Ok(true) => Ok(()),
        Ok(false) => Err(mismatch_error(facts.types, surface, expected, actual, origin)),
        Err(e) => Err(e),
    }
}

/// Checks that a value of type `actual` may be passed where `expected` is
/// expected, naming the use `surface` in the diagnostic; `never` is the
/// never-returning type.
pub fn ensure_assignable(
    typed: &TypedProgram,
    never: CheckedTypeId,
    expected: CheckedTypeId,
    actual: CheckedTypeId,
    surface: String,
    origin: Option<SyntaxOrigin>,
) -> (r: Result<(), TypecheckError>)
    requires
        v1_assignable_resolves(typed.facts(), typed.symbol_facts(), never, expected, actual),
        acyclic(typed.facts().types),
    ensures
        result_view(r) == assignment_outcome(
            typed.facts(),
            typed.symbol_facts(),
            never,
            expected,
            actual,
            surface@,
            origin_view(origin),
        ),
{
    match is_v1_assignable(typed, never, expected, actual) {
        Ok(true) => Ok(()),
        Ok(false) => {
            let mut message = surface;
            push_text(&mut message, " expects '");
            let expected_text = describe_type(typed, expected);
            push_text(&mut message, expected_text.as_str());
            push_text(&mut message, "' but got '");
            let actual_text = describe_type(typed, actual);
            push_text(&mut message, actual_text.as_str());
            push_text(&mut message, "'");
            Err(TypecheckError::at(TypecheckErrorKind::IncompatibleType, message.as_str(), origin))
        },
        Err(e) => Err(e),
    }
}

/// The bindings and outcome after meeting generic parameter `symbol` with an
/// argument of type `actual`: a parameter already bound must accept
/// `actual`; an unbound one is bound to it.
pub open spec fn binding_outcome(
    facts: FactsView,
    symbols: Map<SymbolId, TypedSymbol>,
    never: CheckedTypeId,
    symbol: SymbolId,
    actual: CheckedTypeId,
    bindings: Map<SymbolId, CheckedTypeId>,
    surface: Seq<char>,
    origin: Option<SyntaxOriginView>,
) -> (Map<SymbolId, CheckedTypeId>, Result<(), TypecheckErrorView>) {
    if bindings.contains_key(symbol) {
        (
            bindings,
            assignment_outcome(facts, symbols, never, bindings[symbol], actual, surface, origin),
        )
    } else {
        (bindings.insert(symbol, actual), Ok(()))
    }
}

/// Binds generic parameter `symbol` to `actual`, or checks `actual` against
/// the type it is already bound to.
pub fn bind_generic_parameter(
    typed: &TypedProgram,
    never: CheckedTypeId,
    symbol: SymbolId,
    actual: CheckedTypeId,
    bindings: &mut SortedMap<SymbolId, CheckedTypeId>,
    surface: String,
    origin: Option<SyntaxOrigin>,
) -> (r: Result<(), TypecheckError>)
    requires
        old(bindings).as_map().contains_key(symbol) ==> v1_assignable_resolves(
            typed.facts(),
            typed.symbol_facts(),
            never,
            old(bindings).as_map()[symbol],
            actual,
        ),
        acyclic(typed.facts().types),
    ensures
        (final(bindings).as_map(), result_view(r)) == binding_outcome(
            typed.facts(),
            typed.symbol_facts(),
            never,
            symbol,
            actual,
            old(bindings).as_map(),
            surface@,
            origin_view(origin),
        ),
{
    match bindings.get(&symbol) {
        Some(bound) => {
            let bound = *bound;
            ensure_assignable(typed, never, bound, actual, surface, origin)
        },
        None => {
            bindings.insert(symbol, actual);
            Ok(())
        },
    }
}

/// The position a call diagnostic falls back to without a known origin: the
/// start of the program, as long as the callee's name.
pub open spec fn call_fallback_origin(callee: &str) -> SyntaxOriginView {
    SyntaxOriginView { file: None, line: 1, column: 1, length: callee.len() }
}

/// The diagnostic for a call to `callee` with `actual` arguments where
/// `expected` are taken: "call to 'f' expects N args but got M", at `origin`
/// or else at the start of the program.
pub open spec fn arity_error(
    expected: nat,
    actual: nat,
    callee: &str,
    origin: Option<SyntaxOriginView>,
) -> TypecheckErrorView {
    TypecheckErrorView {
        kind: TypecheckErrorKind::InvalidInput,
        message: "call to '"@ + callee@ + "' expects "@ + decimal_text(expected) + " args but got "@
            + decimal_text(actual),
        origin: Some(
            match origin {
                Some(o) => o,
                None => call_fallback_origin(callee),
            },
        ),
        related: seq![],
    }
}

/// Builds the diagnostic for a call to `callee` with `actual` arguments where
/// `expected` are taken.
pub fn call_arity_error(expected: usize, actual: usize, callee: &str, origin: Option<SyntaxOrigin>) -> (r:
    TypecheckError)
    ensures
        r@ == arity_error(expected as nat, actual as nat, callee, origin_view(origin)),
{
    let mut message = owned("call to '");
    push_text(&mut message, callee);
    push_text(&mut message, "' expects ");
    let expected_text = decimal(expected as u64);
    push_text(&mut message, expected_text.as_str());
    push_text(&mut message, " args but got ");
    let actual_text = decimal(actual as u64);
    push_text(&mut message, actual_text.as_str());
    let origin = match origin {
        Some(o) => o,
        None => SyntaxOrigin { file: None, line: 1, column: 1, length: callee.len() },
    };
    TypecheckError::with_origin(TypecheckErrorKind::InvalidInput, message.as_str(), origin)
}

/// What inferring generic bindings from an argument does next.
pub enum InferenceStep {
    /// Infer from each pair of parameter and argument types, in order.
    Pairs(Seq<(CheckedTypeId, CheckedTypeId)>),
    /// The parameter type is generic parameter `symbol`: bind it.
    Bind(SymbolId),
    /// Check the apparent argument type against the apparent parameter type.
    Assign(CheckedTypeId, CheckedTypeId),
    /// Nothing is left to infer.
    Done,
    /// Resolving an apparent type failed.
    Fail(TypecheckErrorView),
    /// Resolving an apparent type does not end.
    Diverges,
}

/// The pairs of the same positions of `a` and `b`.
pub open spec fn zip_ids(a: Seq<CheckedTypeId>, b: Seq<CheckedTypeId>) -> Seq<
    (CheckedTypeId, CheckedTypeId),
> {
    Seq::new(a.len(), |i: int| (a[i], b[i]))
}

/// The argument lists of two instantiations of the same generic named type
/// with as many arguments, paired position by position.
pub open spec fn nominal_pairs(facts: FactsView, expected: CheckedTypeId, actual: CheckedTypeId) -> Option<
    Seq<(CheckedTypeId, CheckedTypeId)>,
> {
    match type_at(facts, expected) {
        Some(CheckedTypeView::Declared { symbol: expected_symbol, args: expected_args, .. }) => {
            match type_at(facts, actual) {
                Some(CheckedTypeView::Declared { symbol: actual_symbol, args: actual_args, .. }) => {
                    if expected_args.len() > 0 && expected_symbol == actual_symbol
                        && expected_args.len() == actual_args.len() {
                        Some(zip_ids(expected_args, actual_args))
                    } else {
                        None
                    }
                },
                _ => None,
            }
        },
        _ => None,
    }
}

/// Every field name of `expected` is a field of `actual`.
pub open spec fn fields_found(
    expected: Seq<(Seq<char>, CheckedTypeId)>,
    actual: Seq<(Seq<char>, CheckedTypeId)>,
) -> bool {
    forall|i: int| 0 <= i < expected.len() ==> #[trigger] seq_to_map(actual).contains_key(expected[i].0)
}

/// Each field type of `expected` paired with the type of the field of the
/// same name in `actual`, in the order of `expected`.
pub open spec fn field_pairs(
    expected: Seq<(Seq<char>, CheckedTypeId)>,
    actual: Seq<(Seq<char>, CheckedTypeId)>,
) -> Seq<(CheckedTypeId, CheckedTypeId)> {
    Seq::new(expected.len(), |i: int| (expected[i].1, seq_to_map(actual)[expected[i].0]))
}

/// Every variant name of `expected` is a variant of `actual`.
pub open spec fn variants_found(
    expected: Seq<(Seq<char>, Option<CheckedTypeId>)>,
    actual: Seq<(Seq<char>, Option<CheckedTypeId>)>,
) -> bool {
    forall|i: int| 0 <= i < expected.len() ==> #[trigger] seq_to_map(actual).contains_key(expected[i].0)
}

/// Each payload type of `expected` paired with the payload of the variant of
/// the same name in `actual`, in the order of `expected`, where both
/// variants carry one.
pub open spec fn payload_pairs(
    expected: Seq<(Seq<char>, Option<CheckedTypeId>)>,
    actual: Map<Seq<char>, Option<CheckedTypeId>>,
) -> Seq<(CheckedTypeId, CheckedTypeId)>
    decreases expected.len(),
{
    if expected.len() == 0 {
        seq![]
    } else {
        let earlier = payload_pairs(expected.drop_last(), actual);
        match (expected.last().1, actual[expected.last().0]) {
            (Some(e), Some(a)) => earlier.push((e, a)),
            _ => earlier,
        }
    }
}

/// The step taken on the apparent parameter type `expected` and apparent
/// argument type `actual`: a generic parameter is bound; arrays of one size,
/// vectors, sequences, optionals, typed errors and maps pair their element
/// types; records and entries with the same names pair the types under each
/// name; anything else must be assignable.
pub open spec fn structural_step(facts: FactsView, expected: CheckedTypeId, actual: CheckedTypeId) -> InferenceStep {
    match (type_at(facts, expected), type_at(facts, actual)) {
        (Some(CheckedTypeView::Declared { symbol, kind: DeclaredTypeKind::GenericParameter, .. }), _) => {
            InferenceStep::Bind(symbol)
        },
        (
            Some(CheckedTypeView::Array { element_type: e, size: es }),
            Some(CheckedTypeView::Array { element_type: a, size: as_ }),
        ) => if es == as_ {
            InferenceStep::Pairs(seq![(e, a)])
        } else {
            InferenceStep::Assign(expected, actual)
        },
        (
            Some(CheckedTypeView::Vector { element_type: e }),
            Some(CheckedTypeView::Vector { element_type: a }),
        ) => InferenceStep::Pairs(seq![(e, a)]),
        (
            Some(CheckedTypeView::Sequence { element_type: e }),
            Some(CheckedTypeView::Sequence { element_type: a }),
        ) => InferenceStep::Pairs(seq![(e, a)]),
        (Some(CheckedTypeView::Optional { inner: e }), Some(CheckedTypeView::Optional { inner: a })) => {
            InferenceStep::Pairs(seq![(e, a)])
        },
        (Some(CheckedTypeView::Error { inner: e }), Some(CheckedTypeView::Error { inner: a })) => {
            match (e, a) {
                (Some(e), Some(a)) => InferenceStep::Pairs(seq![(e, a)]),
                (None, None) => InferenceStep::Done,
                _ => InferenceStep::Assign(expected, actual),
            }
        },
        (Some(CheckedTypeView::Record { fields: e }), Some(CheckedTypeView::Record { fields: a })) => {
            if e.len() == a.len() && fields_found(e, a) {
                InferenceStep::Pairs(field_pairs(e, a))
            } else {
                InferenceStep::Assign(expected, actual)
            }
        },
        (Some(CheckedTypeView::Entry { variants: e }), Some(CheckedTypeView::Entry { variants: a })) => {
            if e.len() == a.len() && variants_found(e, a) {
                InferenceStep::Pairs(payload_pairs(e, seq_to_map(a)))
            } else {
                InferenceStep::Assign(expected, actual)
            }
        },
        (
            Some(CheckedTypeView::MapOf { key_type: ek, value_type: ev }),
            Some(CheckedTypeView::MapOf { key_type: ak, value_type: av }),
        ) => InferenceStep::Pairs(seq![(ek, ak), (ev, av)]),
        _ => InferenceStep::Assign(expected, actual),
    }
}

/// The step taken on parameter type `expected` and argument type `actual`:
/// two instantiations of one generic named type pair their arguments;
/// otherwise both are resolved to their apparent types, the parameter type
/// first, and the structural step is taken on those.
pub open spec fn inference_step(
    facts: FactsView,
    symbols: Map<SymbolId, TypedSymbol>,
    expected: CheckedTypeId,
    actual: CheckedTypeId,
) -> InferenceStep {
    match nominal_pairs(facts, expected, actual) {
        Some(pairs) => InferenceStep::Pairs(pairs),
        None => if !apparent_resolves(facts, symbols, expected) {
            InferenceStep::Diverges
        } else {
            match apparent_outcome(facts, symbols, expected) {
                Err(_) => InferenceStep::Fail(cycle_error()),
                Ok(e) => if !apparent_resolves(facts, symbols, actual) {
                    InferenceStep::Diverges
                } else {
                    match apparent_outcome(facts, symbols, actual) {
                        Err(_) => InferenceStep::Fail(cycle_error()),
                        Ok(a) => structural_step(facts, e, a),
                    }
                },
            }
        },
    }
}

/// Inferring from parameter type `expected` and argument type `actual`,
/// starting from `bindings`, nested at most `fuel` deep: `None` when that is
/// not deep enough or a resolution does not end, else the bindings reached
/// and the outcome.
pub open spec fn inference_within(
    facts: FactsView,
    symbols: Map<SymbolId, TypedSymbol>,
    never: CheckedTypeId,
    expected: CheckedTypeId,
    actual: CheckedTypeId,
    bindings: Map<SymbolId, CheckedTypeId>,
    surface: Seq<char>,
    origin: Option<SyntaxOriginView>,
    fuel: nat,
) -> Option<(Map<SymbolId, CheckedTypeId>, Result<(), TypecheckErrorView>)>
    decreases fuel, 0nat,
{
    if fuel == 0 {
        None
    } else {
        match inference_step(facts, symbols, expected, actual) {
            InferenceStep::Pairs(pairs) => inference_over(
                facts,
                symbols,
                never,
                pairs,
                bindings,
                surface,
                origin,
                (fuel - 1) as nat,
            ),
            InferenceStep::Bind(symbol) => if bindings.contains_key(symbol)
                && !v1_assignable_resolves(facts, symbols, never, bindings[symbol], actual) {
                None
            } else {
                Some(
                    binding_outcome(facts, symbols, never, symbol, actual, bindings, surface, origin),
                )
            },
            InferenceStep::Assign(e, a) => if v1_assignable_resolves(facts, symbols, never, e, a) {
                Some((bindings, assignment_outcome(facts, symbols, never, e, a, surface, origin)))
            } else {
                None
            },
            InferenceStep::Done => Some((bindings, Ok(()))),
            InferenceStep::Fail(error) => Some((bindings, Err(error))),
            InferenceStep::Diverges => None,
        }
    }
}

/// Inferring from each pair in turn, threading the bindings through and
/// stopping at the first failure.
pub open spec fn inference_over(
    facts: FactsView,
    symbols: Map<SymbolId, TypedSymbol>,
    never: CheckedTypeId,
    pairs: Seq<(CheckedTypeId, CheckedTypeId)>,
    bindings: Map<SymbolId, CheckedTypeId>,
    surface: Seq<char>,
    origin: Option<SyntaxOriginView>,
    fuel: nat,
) -> Option<(Map<SymbolId, CheckedTypeId>, Result<(), TypecheckErrorView>)>
    decreases fuel, pairs.len() + 1,
{
    if pairs.len() == 0 {
        Some((bindings, Ok(())))
    } else {
        match inference_within(
            facts,
            symbols,
            never,
            pairs[0].0,
            pairs[0].1,
            bindings,
            surface,
            origin,
            fuel,
        ) {
            Some((reached, Ok(()))) => inference_over(
                facts,
                symbols,
                never,
                pairs.drop_first(),
                reached,
                surface,
                origin,
                fuel,
            ),
            other => other,
        }
    }
}

/// What the structural step decides, with the pairs it collected.
enum Unification {
    Pairs(Vec<(CheckedTypeId, CheckedTypeId)>),
    Bind(SymbolId),
    Assign,
    Done,
}

/// Collects the argument pairs of two instantiations of one generic named
/// type, when that is what `expected` and `actual` are.
fn nominal_pairs_of(typed: &TypedProgram, expected: CheckedTypeId, actual: CheckedTypeId) -> (r:
    Option<Vec<(CheckedTypeId, CheckedTypeId)>>)
    ensures
        match r {
            Some(pairs) => nominal_pairs(typed.facts(), expected, actual) == Some(pairs@),
            None => nominal_pairs(typed.facts(), expected, actual) is None,
        },
{
    proof {
        typed.lemma_state_fields();
    }
    match (typed.type_table().get(expected), typed.type_table().get(actual)) {
        (
            Some(CheckedType::Declared { symbol: expected_symbol, args: expected_args, .. }),
            Some(CheckedType::Declared { symbol: actual_symbol, args: actual_args, .. }),
        ) => {
            if expected_args.len() > 0 && expected_symbol.0 == actual_symbol.0
                && expected_args.len() == actual_args.len() {
                let mut pairs: Vec<(CheckedTypeId, CheckedTypeId)> = Vec::new();
                let mut i: usize = 0;
                while i < expected_args.len()
                    invariant
                        i <= expected_args.len(),
                        expected_args.len() == actual_args.len(),
                        pairs@ =~= zip_ids(expected_args@, actual_args@).take(i as int),
                    decreases expected_args.len() - i,
                {
                    pairs.push((expected_args[i], actual_args[i]));
                    i = i + 1;
                }
                proof {
                    assert(pairs@ =~= zip_ids(expected_args@, actual_args@));
                }
                Some(pairs)
            } else {
                None
            }
        },
        _ => None,
    }
}

/// Pairs the field types of two records by name, or tells that a name of
/// `expected` is missing from `actual`.
fn record_pairs(
    expected: &SortedMap<String, CheckedTypeId>,
    actual: &SortedMap<String, CheckedTypeId>,
) -> (r: Option<Vec<(CheckedTypeId, CheckedTypeId)>>)
    ensures
        match r {
            Some(pairs) => fields_found(expected.entries(), actual.entries()) && pairs@
                == field_pairs(expected.entries(), actual.entries()),
            None => !fields_found(expected.entries(), actual.entries()),
        },
{
    let mut pairs: Vec<(CheckedTypeId, CheckedTypeId)> = Vec::new();
    let mut i: usize = 0;
    while i < expected.len()
        invariant
            i <= expected.entries().len(),
            pairs@.len() == i,
            forall|j: int|
                0 <= j < i ==> #[trigger] seq_to_map(actual.entries()).contains_key(
                    expected.entries()[j].0,
                ),
            forall|j: int|
                0 <= j < i ==> #[trigger] pairs@[j] == (
                    expected.entries()[j].1,
                    seq_to_map(actual.entries())[expected.entries()[j].0],
                ),
        decreases expected.entries().len() - i,
    {
        match actual.get(expected.key_at(i)) {
            Some(found) => {
                pairs.push((*expected.value_at(i), *found));
            },
            None => {
                return None;
            },
        }
        i = i + 1;
    }
    proof {
        assert(pairs@ =~= field_pairs(expected.entries(), actual.entries()));
    }
    Some(pairs)
}

/// Pairs the payload types of two entries by variant name, where both
/// variants carry one, or tells that a name of `expected` is missing from
/// `actual`.
fn variant_pairs(
    expected: &SortedMap<String, Option<CheckedTypeId>>,
    actual: &SortedMap<String, Option<CheckedTypeId>>,
) -> (r: Option<Vec<(CheckedTypeId, CheckedTypeId)>>)
    ensures
        match r {
            Some(pairs) => variants_found(expected.entries(), actual.entries()) && pairs@
                == payload_pairs(expected.entries(), seq_to_map(actual.entries())),
            None => !variants_found(expected.entries(), actual.entries()),
        },
{
    let ghost e = expected.entries();
    let ghost m = seq_to_map(actual.entries());
    let mut pairs: Vec<(CheckedTypeId, CheckedTypeId)> = Vec::new();
    let mut i: usize = 0;
    proof {
        assert(e.take(0) =~= seq![]);
    }
    while i < expected.len()
        invariant
            e == expected.entries(),
            m == seq_to_map(actual.entries()),
            i <= e.len(),
            forall|j: int| 0 <= j < i ==> #[trigger] m.contains_key(e[j].0),
            pairs@ == payload_pairs(e.take(i as int), m),
        decreases e.len() - i,
    {
        match actual.get(expected.key_at(i)) {
            Some(found) => {
                proof {
                    assert(e.take(i + 1).drop_last() =~= e.take(i as int));
                    assert(e.take(i + 1).last() == e[i as int]);
                }
                match (expected.value_at(i), found) {
                    (Some(expected_payload), Some(actual_payload)) => {
                        pairs.push((*expected_payload, *actual_payload));
                    },
                    _ => {},
                }
            },
            None => {
                return None;
            },
        }
        i = i + 1;
    }
    proof {
        assert(e.take(i as int) =~= e);
    }
    Some(pairs)
}

/// The single pair of `expected` and `actual`.
fn one_pair(expected: CheckedTypeId, actual: CheckedTypeId) -> (r: Vec<(CheckedTypeId, CheckedTypeId)>)
    ensures
        r@ == seq![(expected, actual)],
{
    let r = vec![(expected, actual)];
    proof {
        assert(r@ =~= seq![(expected, actual)]);
    }
    r
}

/// Takes the structural step on apparent types `expected` and `actual`.
fn structural_step_of(typed: &TypedProgram, expected: CheckedTypeId, actual: CheckedTypeId) -> (r:
    Unification)
    ensures
        match r {
            Unification::Pairs(pairs) => structural_step(typed.facts(), expected, actual)
                == InferenceStep::Pairs(pairs@),
            Unification::Bind(symbol) => structural_step(typed.facts(), expected, actual)
                == InferenceStep::Bind(symbol),
            Unification::Assign => structural_step(typed.facts(), expected, actual)
                == InferenceStep::Assign(expected, actual),
            Unification::Done => structural_step(typed.facts(), expected, actual)
                == InferenceStep::Done,
        },
{
    proof {
        typed.lemma_state_fields();
    }
    match (typed.type_table().get(expected), typed.type_table().get(actual)) {
        (Some(CheckedType::Declared { symbol, kind: DeclaredTypeKind::GenericParameter, .. }), _) => {
            Unification::Bind(*symbol)
        },
        (
            Some(CheckedType::Array { element_type: e, size: es }),
            Some(CheckedType::Array { element_type: a, size: as_ }),
        ) => {
            let same_size = match (es, as_) {
                (Some(x), Some(y)) => *x == *y,
                (None, None) => true,
                _ => false,
            };
            if same_size {
                Unification::Pairs(one_pair(*e, *a))
            } else {
                Unification::Assign
            }
        },
        (Some(CheckedType::Vector { element_type: e }), Some(CheckedType::Vector { element_type: a })) => {
            Unification::Pairs(one_pair(*e, *a))
        },
        (
            Some(CheckedType::Sequence { element_type: e }),
            Some(CheckedType::Sequence { element_type: a }),
        ) => Unification::Pairs(one_pair(*e, *a)),
        (Some(CheckedType::Optional { inner: e }), Some(CheckedType::Optional { inner: a })) => {
            Unification::Pairs(one_pair(*e, *a))
        },
        (Some(CheckedType::Error { inner: e }), Some(CheckedType::Error { inner: a })) => {
            match (e, a) {
                (Some(e), Some(a)) => Unification::Pairs(one_pair(*e, *a)),
                (None, None) => Unification::Done,
                _ => Unification::Assign,
            }
        },
        (Some(CheckedType::Record { fields: e }), Some(CheckedType::Record { fields: a })) => {
            if e.len() != a.len() {
                return Unification::Assign;
            }
            match record_pairs(e, a) {
                Some(pairs) => Unification::Pairs(pairs),
                None => Unification::Assign,
            }
        },
        (Some(CheckedType::Entry { variants: e }), Some(CheckedType::Entry { variants: a })) => {
            if e.len() != a.len() {
                return Unification::Assign;
            }
            match variant_pairs(e, a) {
                Some(pairs) => Unification::Pairs(pairs),
                None => Unification::Assign,
            }
        },
        (
            Some(CheckedType::MapOf { key_type: ek, value_type: ev }),
            Some(CheckedType::MapOf { key_type: ak, value_type: av }),
        ) => {
            let pairs = vec![(*ek, *ak), (*ev, *av)];
            proof {
                assert(pairs@ =~= seq![(*ek, *ak), (*ev, *av)]);
            }
            Unification::Pairs(pairs)
        },
        _ => Unification::Assign,
    }
}

/// Inferring from `expected` and `actual` ends after finitely many nested
/// steps, every apparent type it resolves included.
pub open spec fn inference_resolves(
    facts: FactsView,
    symbols: Map<SymbolId, TypedSymbol>,
    never: CheckedTypeId,
    expected: CheckedTypeId,
    actual: CheckedTypeId,
    bindings: Map<SymbolId, CheckedTypeId>,
    surface: Seq<char>,
    origin: Option<SyntaxOriginView>,
) -> bool {
    exists|fuel: nat|
        (#[trigger] inference_within(
            facts,
            symbols,
            never,
            expected,
            actual,
            bindings,
            surface,
            origin,
            fuel,
        )) is Some
}

/// The bindings and outcome inferring from `expected` and `actual` ends in,
/// when it ends.
pub open spec fn inference_outcome(
    facts: FactsView,
    symbols: Map<SymbolId, TypedSymbol>,
    never: CheckedTypeId,
    expected: CheckedTypeId,
    actual: CheckedTypeId,
    bindings: Map<SymbolId, CheckedTypeId>,
    surface: Seq<char>,
    origin: Option<SyntaxOriginView>,
) -> (Map<SymbolId, CheckedTypeId>, Result<(), TypecheckErrorView>) {
    inference_within(
        facts,
        symbols,
        never,
        expected,
        actual,
        bindings,
        surface,
        origin,
        choose|fuel: nat|
            (#[trigger] inference_within(
                facts,
                symbols,
                never,
                expected,
                actual,
                bindings,
                surface,
                origin,
                fuel,
            )) is Some,
    )->0
}

/// Infers generic bindings from `expected` and `actual` within `fuel`
/// nested steps.
fn infer_within(
    typed: &TypedProgram,
    never: CheckedTypeId,
    expected: CheckedTypeId,
    actual: CheckedTypeId,
    bindings: &mut SortedMap<SymbolId, CheckedTypeId>,
    surface: &str,
    origin: &Option<SyntaxOrigin>,
    Ghost(fuel): Ghost<nat>,
) -> (r: Result<(), TypecheckError>)
    requires
        inference_within(
            typed.facts(),
            typed.symbol_facts(),
            never,
            expected,
            actual,
            old(bindings).as_map(),
            surface@,
            origin_view(*origin),
            fuel,
        ) is Some,
        acyclic(typed.facts().types),
    ensures
        Some((final(bindings).as_map(), result_view(r))) == inference_within(
            typed.facts(),
            typed.symbol_facts(),
            never,
            expected,
            actual,
            old(bindings).as_map(),
            surface@,
            origin_view(*origin),
            fuel,
        ),
    decreases fuel,
{
    let ghost f = typed.facts();
    let ghost sy = typed.symbol_facts();
    let ghost o = origin_view(*origin);
    let ghost target = inference_within(
        f,
        sy,
        never,
        expected,
        actual,
        bindings.as_map(),
        surface@,
        o,
        fuel,
    );
    let pairs = match nominal_pairs_of(typed, expected, actual) {
        Some(pairs) => pairs,
        None => {
            let expected_apparent = match apparent_type_id(typed, expected) {
                Ok(id) => id,
                Err(error) => {
                    return Err(error);
                },
            };
            let actual_apparent = match apparent_type_id(typed, actual) {
                Ok(id) => id,
                Err(error) => {
                    return Err(error);
                },
            };
            match structural_step_of(typed, expected_apparent, actual_apparent) {
                Unification::Pairs(pairs) => pairs,
                Unification::Bind(symbol) => {
                    return bind_generic_parameter(
                        typed,
                        never,
                        symbol,
                        actual,
                        bindings,
                        owned(surface),
                        copy_origin(origin),
                    );
                },
                Unification::Assign => {
                    return ensure_assignable(
                        typed,
                        never,
                        expected_apparent,
                        actual_apparent,
                        owned(surface),
                        copy_origin(origin),
                    );
                },
                Unification::Done => {
                    return Ok(());
                },
            }
        },
    };
    let mut i: usize = 0;
    proof {
        assert(pairs@.skip(0) =~= pairs@);
    }
    while i < pairs.len()
        invariant
            f == typed.facts(),
            sy == typed.symbol_facts(),
            o == origin_view(*origin),
            acyclic(f.types),
            fuel > 0,
            i <= pairs@.len(),
            target is Some,
            target == inference_within(
                f,
                sy,
                never,
                expected,
                actual,
                old(bindings).as_map(),
                surface@,
                o,
                fuel,
            ),
            inference_over(
                f,
                sy,
                never,
                pairs@.skip(i as int),
                bindings.as_map(),
                surface@,
                o,
                (fuel - 1) as nat,
            ) == target,
        decreases pairs@.len() - i,
    {
        let (e, a) = pairs[i];
        proof {
            assert(pairs@.skip(i as int)[0] == pairs@[i as int]);
            assert(pairs@.skip(i as int).drop_first() =~= pairs@.skip(i + 1));
        }
        match infer_within(typed, never, e, a, bindings, surface, origin, Ghost((fuel - 1) as nat)) {
            Ok(()) => {},
            Err(error) => {
                return Err(error);
            },
        }
        i = i + 1;
    }
    proof {
        assert(pairs@.skip(i as int) =~= Seq::<(CheckedTypeId, CheckedTypeId)>::empty());
    }
    Ok(())
}

/// Infers the generic parameters of a routine from one argument: walks the
/// parameter type `expected` and the argument type `actual` together,
/// binding each generic parameter met to the argument type found in its
/// place and checking every other part for assignability. `bindings` holds
/// what earlier arguments bound; `never` is the never-returning type, and
/// `surface` names the use in diagnostics.
pub fn infer_generic_bindings_from_argument(
    typed: &TypedProgram,
    never: CheckedTypeId,
    expected: CheckedTypeId,
    actual: CheckedTypeId,
    bindings: &mut SortedMap<SymbolId, CheckedTypeId>,
    surface: String,
    origin: Option<SyntaxOrigin>,
) -> (r: Result<(), TypecheckError>)
    requires
        inference_resolves(
            typed.facts(),
            typed.symbol_facts(),
            never,
            expected,
            actual,
            old(bindings).as_map(),
            surface@,
            origin_view(origin),
        ),
        acyclic(typed.facts().types),
    ensures
        (final(bindings).as_map(), result_view(r)) == inference_outcome(
            typed.facts(),
            typed.symbol_facts(),
            never,
            expected,
            actual,
            old(bindings).as_map(),
            surface@,
            origin_view(origin),
        ),
{
    let ghost fuel = choose|fuel: nat|
        (#[trigger] inference_within(
            typed.facts(),
            typed.symbol_facts(),
            never,
            expected,
            actual,
            bindings.as_map(),
            surface@,
            origin_view(origin),
            fuel,
        )) is Some;
    infer_within(typed, never, expected, actual, bindings, surface.as_str(), &origin, Ghost(fuel))
}

/// `reached` keeps every binding of `bindings`.
pub open spec fn keeps_bindings(
    reached: Map<SymbolId, CheckedTypeId>,
    bindings: Map<SymbolId, CheckedTypeId>,
) -> bool {
    forall|k: SymbolId| #[trigger]
        bindings.contains_key(k) ==> reached.contains_key(k) && reached[k] == bindings[k]
}

/// Inferring within `fuel` steps keeps every earlier binding.
proof fn lemma_within_keeps_bindings(
    facts: FactsView,
    symbols: Map<SymbolId, TypedSymbol>,
    never: CheckedTypeId,
    expected: CheckedTypeId,
    actual: CheckedTypeId,
    bindings: Map<SymbolId, CheckedTypeId>,
    surface: Seq<char>,
    origin: Option<SyntaxOriginView>,
    fuel: nat,
)
    ensures
        inference_within(facts, symbols, never, expected, actual, bindings, surface, origin, fuel)
            matches Some(out) ==> keeps_bindings(out.0, bindings),
    decreases fuel, 0nat,
{
    if fuel > 0 {
        match inference_step(facts, symbols, expected, actual) {
            InferenceStep::Pairs(pairs) => {
                lemma_over_keeps_bindings(
                    facts,
                    symbols,
                    never,
                    pairs,
                    bindings,
                    surface,
                    origin,
                    (fuel - 1) as nat,
                );
            },
            _ => {},
        }
    }
}

/// Inferring from a list of pairs within `fuel` steps keeps every earlier
/// binding.
proof fn lemma_over_keeps_bindings(
    facts: FactsView,
    symbols: Map<SymbolId, TypedSymbol>,
    never: CheckedTypeId,
    pairs: Seq<(CheckedTypeId, CheckedTypeId)>,
    bindings: Map<SymbolId, CheckedTypeId>,
    surface: Seq<char>,
    origin: Option<SyntaxOriginView>,
    fuel: nat,
)
    ensures
        inference_over(facts, symbols, never, pairs, bindings, surface, origin, fuel) matches Some(out)
            ==> keeps_bindings(out.0, bindings),
    decreases fuel, pairs.len() + 1,
{
    if pairs.len() > 0 {
        lemma_within_keeps_bindings(
            facts,
            symbols,
            never,
            pairs[0].0,
            pairs[0].1,
            bindings,
            surface,
            origin,
            fuel,
        );
        match inference_within(
            facts,
            symbols,
            never,
            pairs[0].0,
            pairs[0].1,
            bindings,
            surface,
            origin,
            fuel,
        ) {
            Some((reached, Ok(()))) => {
                lemma_over_keeps_bindings(
                    facts,
                    symbols,
                    never,
                    pairs.drop_first(),
                    reached,
                    surface,
                    origin,
                    fuel,
                );
            },
            _ => {},
        }
    }
}

/// Inference only ever adds bindings: a generic parameter an earlier
/// argument bound keeps its binding, whatever the next argument is and
/// whether or not it is accepted.
pub proof fn law_inference_keeps_bindings(
    facts: FactsView,
    symbols: Map<SymbolId, TypedSymbol>,
    never: CheckedTypeId,
    expected: CheckedTypeId,
    actual: CheckedTypeId,
    bindings: Map<SymbolId, CheckedTypeId>,
    surface: Seq<char>,
    origin: Option<SyntaxOriginView>,
)
    requires
        inference_resolves(facts, symbols, never, expected, actual, bindings, surface, origin),
    ensures
        keeps_bindings(
            inference_outcome(facts, symbols, never, expected, actual, bindings, surface, origin).0,
            bindings,
        ),
{
    let fuel = choose|fuel: nat|
        (#[trigger] inference_within(
            facts,
            symbols,
            never,
            expected,
            actual,
            bindings,
            surface,
            origin,
            fuel,
        )) is Some;
    lemma_within_keeps_bindings(
        facts,
        symbols,
        never,
        expected,
        actual,
        bindings,
        surface,
        origin,
        fuel,
    );
}

/// Inferring from a parameter whose apparent type is an array and an
/// argument whose apparent type is an array of another size does not pair
/// their element types: it binds nothing more, and the outcome is whether
/// the argument's type may be assigned to the parameter's, which, unless the
/// argument never returns, it may not.
pub proof fn law_arrays_of_other_sizes_do_not_unify(
    facts: FactsView,
    symbols: Map<SymbolId, TypedSymbol>,
    never: CheckedTypeId,
    expected: CheckedTypeId,
    actual: CheckedTypeId,
    bindings: Map<SymbolId, CheckedTypeId>,
    surface: Seq<char>,
    origin: Option<SyntaxOriginView>,
    ea: CheckedTypeId,
    aa: CheckedTypeId,
    e: CheckedTypeId,
    a: CheckedTypeId,
    es: Option<usize>,
    as_: Option<usize>,
)
    requires
        !(type_at(facts, expected) matches Some(CheckedTypeView::Declared { .. })),
        apparent_resolves(facts, symbols, expected),
        apparent_resolves(facts, symbols, actual),
        apparent_outcome(facts, symbols, expected) == Ok::<CheckedTypeId, ()>(ea),
        apparent_outcome(facts, symbols, actual) == Ok::<CheckedTypeId, ()>(aa),
        type_at(facts, ea) == Some(CheckedTypeView::Array { element_type: e, size: es }),
        type_at(facts, aa) == Some(CheckedTypeView::Array { element_type: a, size: as_ }),
        es != as_,
        v1_assignable_resolves(facts, symbols, never, ea, aa),
    ensures
        inference_resolves(facts, symbols, never, expected, actual, bindings, surface, origin),
        inference_outcome(facts, symbols, never, expected, actual, bindings, surface, origin) == (
            bindings,
            assignment_outcome(facts, symbols, never, ea, aa, surface, origin),
        ),
        aa != never ==> inference_outcome(facts, symbols, never, expected, actual, bindings, surface, origin).1
            == Err::<(), TypecheckErrorView>(mismatch_error(facts.types, surface, ea, aa, origin)),
{
    assert(structural_step(facts, ea, aa) == InferenceStep::Assign(ea, aa));
    assert(inference_step(facts, symbols, expected, actual) == InferenceStep::Assign(ea, aa));
    assert(inference_within(facts, symbols, never, expected, actual, bindings, surface, origin, 1) is Some);
    let fuel = choose|fuel: nat|
        (#[trigger] inference_within(facts, symbols, never, expected, actual, bindings, surface, origin, fuel)) is Some;
    assert(fuel > 0);
    assert(ea != aa);
    crate::apparent::law_apparent_type_is_settled(facts, symbols, expected, ea);
    crate::apparent::law_apparent_type_is_settled(facts, symbols, actual, aa);
}

} // verus!
