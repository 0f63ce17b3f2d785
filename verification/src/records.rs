//! Typing a record initializer against the record type it is expected to
//! build: each field value is typed against its field, may not be named
//! twice or be unknown, and every field without a declared default must be
//! given.
use crate::apparent::{
    apparent_outcome, apparent_type_id, cycle_error, describe_type, merge_recoverable_effects,
    merged_effects, mixed_effects_error, result_view, type_at,
};
use crate::errors::{with_fallback, TypecheckError, TypecheckErrorKind, TypecheckErrorView};
use crate::exprs::{ErrorCallMode, TypeContext, TypedExpr};
use crate::generics::{assignment_outcome, ensure_assignable};
use crate::initializers::{reject_untagged_owned_transfer, untagged_transfer_outcome};
use crate::ids::{SymbolId, SyntaxOrigin, SyntaxOriginView};
use crate::model::{RecordFieldLayout, RecoverableCallEffect, TypedProgram, TypedSymbol};
use crate::ownership::{FactsView, OwnershipView};
use crate::rejections::{
    error_at, origin_view, plain_use_error, plain_value_expr, reject_recoverable_error_shell_conversion,
    shell_conversion_outcome,
};
use crate::render::{renders_into, rendered};
use crate::resolution::Resolution;
use crate::sorted_map::SortedMap;
use crate::targets::{field_from, find_field};
use crate::transfers::{after_transfer, loop_walks_end};
use crate::types::{CheckedType, CheckedTypeId, CheckedTypeView};
use crate::walk::{
    expr_transfer, extends, lemma_ready_resolves, node_origin, node_origin_at, node_outcome,
    transfer_operand, type_node_with_expectation, walk_ready, Expr, Outcome,
};
use crate::text::{owned, push_text};
use vstd::prelude::*;

verus! {

/// Where a record initializer stands: the position of its first field's
/// value.
pub open spec fn initializer_origin(resolution: &Resolution, fields: Seq<(String, Expr)>) -> Option<
    SyntaxOriginView,
> {
    if fields.len() == 0 {
        None
    } else {
        origin_view(node_origin_at(resolution, fields[0].1))
    }
}

/// How a field is named in diagnostics about its value.
pub open spec fn field_label(name: Seq<char>) -> Seq<char> {
    "record field '"@ + name + "'"@
}

/// What typing the value of field `name` gives, after the fields in `seen`
/// were given: the field's recoverable effect, with the facts and ownership
/// state after it. The field must exist and not be given twice; its value
/// is typed against the field's type, may not turn a recoverable result into
/// an error shell or use one as a plain value, must have a type assignable
/// to the field, and hands its value on, stating the operation where it is
/// an owned value named bare.
pub open spec fn record_field_outcome(
    facts: FactsView,
    symbols: Map<SymbolId, TypedSymbol>,
    o: OwnershipView,
    resolution: &Resolution,
    context: TypeContext,
    never: CheckedTypeId,
    expected_fields: Seq<(Seq<char>, CheckedTypeId)>,
    seen: Set<Seq<char>>,
    name: Seq<char>,
    value: Expr,
) -> (Result<Option<RecoverableCallEffect>, TypecheckErrorView>, FactsView, OwnershipView) {
    let origin = origin_view(node_origin_at(resolution, value));
    match field_from(expected_fields, name, 0) {
        None => (
            Err(
                error_at(
                    TypecheckErrorKind::InvalidInput,
                    "record initializer does not define a field named '"@ + name + "'"@,
                    origin,
                ),
            ),
            facts,
            o,
        ),
        Some(field_type) => if seen.contains(name) {
            (
                Err(
                    error_at(
                        TypecheckErrorKind::InvalidInput,
                        "record initializer repeats the field '"@ + name + "'"@,
                        origin,
                    ),
                ),
                facts,
                o,
            )
        } else {
            let (r, f1, o1) = node_outcome(
                facts,
                symbols,
                o,
                resolution,
                context,
                value,
                Some(field_type),
            );
            match r {
                Err(e) => (Err(with_fallback(e, origin)), f1, o1),
                Ok(actual) => match shell_conversion_outcome(
                    f1,
                    symbols,
                    field_type,
                    actual,
                    origin,
                    field_label(name),
                ) {
                    Err(e) => (Err(e), f1, o1),
                    Ok(_) => if actual.recoverable_effect is Some && context.error_call_mode
                        == ErrorCallMode::Propagate {
                        (Err(plain_use_error(field_label(name), origin)), f1, o1)
                    } else {
                        match actual.value_type {
                            None => (
                                Err(
                                    error_at(
                                        TypecheckErrorKind::InvalidInput,
                                        "record initializer field '"@ + name
                                            + "' does not have a type"@,
                                        origin,
                                    ),
                                ),
                                f1,
                                o1,
                            ),
                            Some(t) => match assignment_outcome(
                                f1,
                                symbols,
                                never,
                                field_type,
                                t,
                                field_label(name),
                                origin,
                            ) {
                                Err(e) => (Err(e), f1, o1),
                                Ok(_) => match untagged_transfer_outcome(
                                    f1,
                                    symbols,
                                    resolution,
                                    value,
                                    t,
                                    "assigned to field '"@ + name + "'"@,
                                ) {
                                    Err(e) => (Err(e), f1, o1),
                                    Ok(_) => match expr_transfer(
                                        f1,
                                        symbols,
                                        resolution,
                                        context.repeating_loop_scope,
                                        value,
                                        t,
                                    ) {
                                        Err(e) => (Err(e), f1, o1),
                                        Ok(record) => (
                                            Ok(actual.recoverable_effect),
                                            f1,
                                            after_transfer(o1, record),
                                        ),
                                    },
                                },
                            },
                        }
                    },
                },
            }
        },
    }
}

/// What typing the first `n` fields of a record initializer gives: the
/// names given and the recoverable effect of each value, in order, with the
/// facts and ownership state after them; or the first error.
pub open spec fn record_fields_outcome(
    facts: FactsView,
    symbols: Map<SymbolId, TypedSymbol>,
    o: OwnershipView,
    resolution: &Resolution,
    context: TypeContext,
    never: CheckedTypeId,
    expected_fields: Seq<(Seq<char>, CheckedTypeId)>,
    fields: Seq<(String, Expr)>,
    n: int,
) -> (
    Result<(Set<Seq<char>>, Seq<Option<RecoverableCallEffect>>), TypecheckErrorView>,
    FactsView,
    OwnershipView,
)
    decreases n,
{
    if n <= 0 {
        (Ok((Set::empty(), seq![])), facts, o)
    } else {
        let (prev, f, o1) = record_fields_outcome(
            facts,
            symbols,
            o,
            resolution,
            context,
            never,
            expected_fields,
            fields,
            n - 1,
        );
        match prev {
            Err(e) => (Err(e), f, o1),
            Ok((seen, effects)) => {
                let name = fields[n - 1].0@;
                let (r, f2, o2) = record_field_outcome(
                    f,
                    symbols,
                    o1,
                    resolution,
                    context,
                    never,
                    expected_fields,
                    seen,
                    name,
                    fields[n - 1].1,
                );
                match r {
                    Err(e) => (Err(e), f2, o2),
                    Ok(effect) => (Ok((seen.insert(name), effects.push(effect))), f2, o2),
                }
            },
        }
    }
}

/// The fields of `record` whose declaration carries a default.
pub open spec fn defaulted_fields(facts: FactsView, record: CheckedTypeId) -> Set<Seq<char>> {
    if facts.record_layouts.contains_key(record) {
        let layout = facts.record_layouts[record];
        Set::new(
            |name: Seq<char>|
                exists|j: int|
                    0 <= j < layout.len() && #[trigger] layout[j].name == name && layout[j].default is Some,
        )
    } else {
        Set::empty()
    }
}

/// Among the first `n` fields of a record type, in order, those neither
/// given nor defaulted.
pub open spec fn missing_fields(
    expected_fields: Seq<(Seq<char>, CheckedTypeId)>,
    given: Set<Seq<char>>,
    defaulted: Set<Seq<char>>,
    n: int,
) -> Seq<Seq<char>>
    decreases n,
{
    if n <= 0 {
        seq![]
    } else {
        let prev = missing_fields(expected_fields, given, defaulted, n - 1);
        let name = expected_fields[n - 1].0;
        if !given.contains(name) && !defaulted.contains(name) {
            prev.push(name)
        } else {
            prev
        }
    }
}

/// The first `n` names, separated by a comma and a space.
pub open spec fn listed(names: Seq<Seq<char>>, n: int) -> Seq<char>
    decreases n,
{
    if n <= 0 {
        seq![]
    } else if n == 1 {
        names[0]
    } else {
        listed(names, n - 1) + ", "@ + names[n - 1]
    }
}

/// What typing a record initializer with `fields`, expected to build a
/// value of type `expected`, gives: a value of the expected type carrying
/// the one recoverable effect its field values share.
pub open spec fn record_init_outcome(
    facts: FactsView,
    symbols: Map<SymbolId, TypedSymbol>,
    o: OwnershipView,
    resolution: &Resolution,
    context: TypeContext,
    never: CheckedTypeId,
    fields: Seq<(String, Expr)>,
    expected: Option<CheckedTypeId>,
) -> Outcome {
    let origin = initializer_origin(resolution, fields);
    match expected {
        None => (
            Err(
                error_at(
                    TypecheckErrorKind::Unsupported,
                    "record initializers require an expected record type in V1"@,
                    origin,
                ),
            ),
            facts,
            o,
        ),
        Some(e) => match apparent_outcome(facts, symbols, e) {
            Err(_) => (Err(cycle_error()), facts, o),
            Ok(a) => match type_at(facts, a) {
                Some(CheckedTypeView::Record { fields: expected_fields }) => {
                    let (r, f, o1) = record_fields_outcome(
                        facts,
                        symbols,
                        o,
                        resolution,
                        context,
                        never,
                        expected_fields,
                        fields,
                        fields.len() as int,
                    );
                    match r {
                        Err(err) => (Err(err), f, o1),
                        Ok((given, effects)) => {
                            let missing = missing_fields(
                                expected_fields,
                                given,
                                defaulted_fields(f, a),
                                expected_fields.len() as int,
                            );
                            if missing.len() > 0 {
                                (
                                    Err(
                                        error_at(
                                            TypecheckErrorKind::IncompatibleType,
                                            "record initializer is missing required fields: "@
                                                + listed(missing, missing.len() as int),
                                            origin,
                                        ),
                                    ),
                                    f,
                                    o1,
                                )
                            } else {
                                match merged_effects(effects, effects.len() as int) {
                                    Ok(merged) => (
                                        Ok(TypedExpr { value_type: Some(e), recoverable_effect: merged }),
                                        f,
                                        o1,
                                    ),
                                    Err(pair) => (
                                        Err(
                                            mixed_effects_error(
                                                f,
                                                "record initializer"@,
                                                pair.0,
                                                pair.1,
                                                origin,
                                            ),
                                        ),
                                        f,
                                        o1,
                                    ),
                                }
                            }
                        },
                    }
                },
                _ => (
                    Err(
                        error_at(
                            TypecheckErrorKind::InvalidInput,
                            "record initializer requires a record expected type, got '"@
                                + rendered(facts.types, e) + "'"@,
                            origin,
                        ),
                    ),
                    facts,
                    o,
                ),
            },
        },
    }
}

/// Once typing the fields of a record initializer fails, later fields
/// change nothing.
proof fn lemma_fields_error_stays(
    facts: FactsView,
    symbols: Map<SymbolId, TypedSymbol>,
    o: OwnershipView,
    resolution: &Resolution,
    context: TypeContext,
    never: CheckedTypeId,
    expected_fields: Seq<(Seq<char>, CheckedTypeId)>,
    fields: Seq<(String, Expr)>,
    n: int,
    m: int,
)
    requires
        0 <= n <= m,
        record_fields_outcome(facts, symbols, o, resolution, context, never, expected_fields, fields, n).0 is Err,
    ensures
        record_fields_outcome(facts, symbols, o, resolution, context, never, expected_fields, fields, m)
            == record_fields_outcome(facts, symbols, o, resolution, context, never, expected_fields, fields, n),
    decreases m - n,
{
    if m > n {
        lemma_fields_error_stays(facts, symbols, o, resolution, context, never, expected_fields, fields, n, m - 1);
    }
}

/// A field found by name in a record type is one of its field types.
proof fn lemma_field_from_member(fields: Seq<(Seq<char>, CheckedTypeId)>, name: Seq<char>, i: int)
    requires
        field_from(fields, name, i) is Some,
    ensures
        exists|k: int| 0 <= k < fields.len() && fields[k].1 == field_from(fields, name, i)->0,
    decreases fields.len() - i,
{
    if i < 0 || i >= fields.len() {
    } else if fields[i].0 == name {
    } else {
        lemma_field_from_member(fields, name, i + 1);
    }
}

/// Whether the field `name` of a record layout carries a default.
fn layout_defaults(layout: &[RecordFieldLayout], name: &str) -> (r: bool)
    ensures
        r == exists|j: int|
            0 <= j < layout@.len() && #[trigger] layout@[j]@.name == name@ && layout@[j]@.default is Some,
{
    let mut i: usize = 0;
    while i < layout.len()
        invariant
            i <= layout@.len(),
            forall|j: int|
                0 <= j < i ==> !(#[trigger] layout@[j]@.name == name@ && layout@[j]@.default is Some),
        decreases layout@.len() - i,
    {
        if layout[i].default.is_some() && crate::text::text_eq(layout[i].name.as_str(), name) {
            proof {
                assert(layout@[i as int]@.name == name@ && layout@[i as int]@.default is Some);
            }
            return true;
        }
        i = i + 1;
    }
    false
}

/// The names of the fields of a record type, in order, that were neither
/// given nor carry a default in `layout`.
fn missing_field_names(
    expected_fields: &SortedMap<String, CheckedTypeId>,
    given: &SortedMap<String, ()>,
    layout: Option<&[RecordFieldLayout]>,
    defaulted: Ghost<Set<Seq<char>>>,
) -> (r: Vec<String>)
    requires
        forall|name: Seq<char>| #[trigger] defaulted@.contains(name) <==> (layout matches Some(l) && exists|j: int|
            0 <= j < l@.len() && #[trigger] l@[j]@.name == name && l@[j]@.default is Some),
    ensures
        r@.map_values(|m: String| m@) == missing_fields(
            expected_fields.entries(),
            given.as_map().dom(),
            defaulted@,
            expected_fields.entries().len() as int,
        ),
{
    let ghost ef = expected_fields.entries();
    let ghost seen = given.as_map().dom();
    let mut missing: Vec<String> = Vec::new();
    let mut j: usize = 0;
    while j < expected_fields.len()
        invariant
            j <= ef.len(),
            ef == expected_fields.entries(),
            seen == given.as_map().dom(),
            forall|name: Seq<char>| #[trigger] defaulted@.contains(name) <==> (layout matches Some(l) && exists|k: int|
                0 <= k < l@.len() && #[trigger] l@[k]@.name == name && l@[k]@.default is Some),
            missing@.map_values(|m: String| m@) == missing_fields(ef, seen, defaulted@, j as int),
        decreases ef.len() - j,
    {
        let key = expected_fields.key_at(j);
        let is_defaulted = match layout {
            Some(l) => layout_defaults(l, key.as_str()),
            None => false,
        };
        let ghost before = missing@;
        if !given.contains_key(key) && !is_defaulted {
            missing.push(owned(key.as_str()));
            proof {
                assert(missing@.map_values(|m: String| m@) =~= before.map_values(|m: String| m@).push(key@));
            }
        }
        proof {
            assert(defaulted@.contains(key@) == is_defaulted);
        }
        j = j + 1;
    }
    missing
}

/// The diagnostic text for record fields left out.
fn missing_fields_message(missing: &Vec<String>) -> (r: String)
    ensures
        r@ == "record initializer is missing required fields: "@ + listed(
            missing@.map_values(|m: String| m@),
            missing@.len() as int,
        ),
{
    let ghost mv = missing@.map_values(|m: String| m@);
    let mut message = owned("record initializer is missing required fields: ");
    let mut k: usize = 0;
    proof {
        assert(message@ =~= "record initializer is missing required fields: "@ + listed(mv, 0));
    }
    while k < missing.len()
        invariant
            k <= missing@.len(),
            mv == missing@.map_values(|m: String| m@),
            message@ == "record initializer is missing required fields: "@ + listed(mv, k as int),
        decreases missing@.len() - k,
    {
        if k > 0 {
            push_text(&mut message, ", ");
        }
        push_text(&mut message, missing[k].as_str());
        proof {
            let prefix = "record initializer is missing required fields: "@;
            if k > 0 {
                assert(message@ =~= prefix + (listed(mv, k as int) + ", "@ + mv[k as int]));
            } else {
                assert(message@ =~= prefix + mv[0]);
            }
        }
        k = k + 1;
    }
    message
}

/// Types the value of field `name` of a record initializer, after the
/// fields in `given` were given.
fn type_record_field(
    typed: &mut TypedProgram,
    resolution: &Resolution,
    context: TypeContext,
    never: CheckedTypeId,
    expected_fields: &SortedMap<String, CheckedTypeId>,
    given: &SortedMap<String, ()>,
    name: &String,
    value: &Expr,
) -> (r: Result<Option<RecoverableCallEffect>, TypecheckError>)
    requires
        walk_ready(old(typed).facts(), old(typed).symbol_facts()),
        loop_walks_end(resolution, context.repeating_loop_scope),
        forall|k: int|
            0 <= k < expected_fields.entries().len() ==> (#[trigger] expected_fields.entries()[k]).1.0
                < old(typed).facts().types.len(),
    ensures
        (result_view(r), final(typed).facts(), final(typed).ownership()) == record_field_outcome(
            old(typed).facts(),
            old(typed).symbol_facts(),
            old(typed).ownership(),
            resolution,
            context,
            never,
            expected_fields.entries(),
            given.as_map().dom(),
            name@,
            *value,
        ),
        walk_ready(final(typed).facts(), final(typed).symbol_facts()),
        extends(old(typed).facts(), final(typed).facts()),
        final(typed).symbol_facts() == old(typed).symbol_facts(),
{
    let ghost sy = typed.symbol_facts();
    let ghost ef = expected_fields.entries();
    let field_origin = node_origin(resolution, value);
    let field_type = match find_field(expected_fields, name.as_str()) {
        Some(t) => t,
        None => {
            let mut message = owned("record initializer does not define a field named '");
            push_text(&mut message, name.as_str());
            push_text(&mut message, "'");
            return Err(TypecheckError::at(TypecheckErrorKind::InvalidInput, message.as_str(), field_origin));
        },
    };
    if given.contains_key(name) {
        let mut message = owned("record initializer repeats the field '");
        push_text(&mut message, name.as_str());
        push_text(&mut message, "'");
        return Err(TypecheckError::at(TypecheckErrorKind::InvalidInput, message.as_str(), field_origin));
    }
    proof {
        lemma_field_from_member(ef, name@, 0);
    }
    let actual_expr = match type_node_with_expectation(typed, resolution, context, value, Some(field_type)) {
        Ok(e) => e,
        Err(e) => {
            proof {
                if field_origin is None {
                    assert(with_fallback(e@, None) =~= e@);
                }
            }
            return Err(
                match field_origin {
                    Some(o) => e.with_fallback_origin(o),
                    None => e,
                },
            );
        },
    };
    let mut label = owned("record field '");
    push_text(&mut label, name.as_str());
    push_text(&mut label, "'");
    proof {
        lemma_ready_resolves(typed.facts(), sy, field_type);
    }
    match reject_recoverable_error_shell_conversion(
        typed,
        field_type,
        &actual_expr,
        node_origin(resolution, value),
        label.as_str(),
    ) {
        Ok(()) => {},
        Err(e) => {
            return Err(e);
        },
    }
    let actual_expr = match plain_value_expr(
        typed,
        context,
        actual_expr,
        node_origin(resolution, value),
        label.as_str(),
    ) {
        Ok(e) => e,
        Err(e) => {
            return Err(e);
        },
    };
    let actual = match actual_expr.value_type {
        Some(t) => t,
        None => {
            let mut message = owned("record initializer field '");
            push_text(&mut message, name.as_str());
            push_text(&mut message, "' does not have a type");
            return Err(TypecheckError::at(TypecheckErrorKind::InvalidInput, message.as_str(), field_origin));
        },
    };
    proof {
        lemma_ready_resolves(typed.facts(), sy, actual);
        match (apparent_outcome(typed.facts(), sy, field_type), apparent_outcome(typed.facts(), sy, actual)) {
            (Ok(ea), Ok(_)) => {
                match crate::apparent::shell_payload(typed.facts(), ea) {
                    Some(p) => lemma_ready_resolves(typed.facts(), sy, p),
                    None => {},
                }
            },
            _ => {},
        }
    }
    match ensure_assignable(typed, never, field_type, actual, label, node_origin(resolution, value)) {
        Ok(()) => {},
        Err(e) => {
            return Err(e);
        },
    }
    let mut describe = owned("assigned to field '");
    push_text(&mut describe, name.as_str());
    push_text(&mut describe, "'");
    match reject_untagged_owned_transfer(typed, resolution, value, actual, describe.as_str()) {
        Ok(()) => {},
        Err(e) => {
            return Err(e);
        },
    }
    match transfer_operand(typed, resolution, context, value, actual) {
        Ok(()) => {},
        Err(e) => {
            return Err(e);
        },
    }
    Ok(actual_expr.recoverable_effect)
}

/// Types a record initializer with `fields`, expected to build a value of
/// type `expected`.
#[verifier::rlimit(40)]
pub fn type_record_init(
    typed: &mut TypedProgram,
    resolution: &Resolution,
    context: TypeContext,
    fields: &Vec<(String, Expr)>,
    expected: Option<CheckedTypeId>,
) -> (r: Result<TypedExpr, TypecheckError>)
    requires
        walk_ready(old(typed).facts(), old(typed).symbol_facts()),
        loop_walks_end(resolution, context.repeating_loop_scope),
        expected matches Some(e) ==> e.0 < old(typed).facts().types.len(),
    ensures
        (result_view(r), final(typed).facts(), final(typed).ownership()) == record_init_outcome(
            old(typed).facts(),
            old(typed).symbol_facts(),
            old(typed).ownership(),
            resolution,
            context,
            old(typed).builtin_ids().never,
            fields@,
            expected,
        ),
        walk_ready(final(typed).facts(), final(typed).symbol_facts()),
        extends(old(typed).facts(), final(typed).facts()),
        final(typed).symbol_facts() == old(typed).symbol_facts(),
{
    let ghost f0 = typed.facts();
    let ghost o0 = typed.ownership();
    let ghost sy = typed.symbol_facts();
    let never = typed.builtin_types().never;
    let origin = if fields.len() == 0 {
        None
    } else {
        node_origin(resolution, &fields[0].1)
    };
    let expected_type = match expected {
        None => {
            return Err(
                TypecheckError::at(
                    TypecheckErrorKind::Unsupported,
                    "record initializers require an expected record type in V1",
                    origin,
                ),
            );
        },
        Some(e) => e,
    };
    proof {
        lemma_ready_resolves(f0, sy, expected_type);
    }
    let apparent = match apparent_type_id(typed, expected_type) {
        Ok(a) => a,
        Err(e) => {
            return Err(e);
        },
    };
    let expected_fields = match typed.type_table().get(apparent) {
        Some(CheckedType::Record { fields: record_fields }) => {
            let copy = record_fields.duplicate_entries();
            proof {
                assert forall|k: int| 0 <= k < copy.entries().len() implies #[trigger] copy.entries()[k]
                    == record_fields.entries()[k] by {
                    assert(copy.deep_entries().len() == copy.entries().len());
                    assert(copy.deep_entries()[k] == (copy.entries()[k].0, copy.entries()[k].1.deep_view()));
                    assert(record_fields.deep_entries()[k] == (
                        record_fields.entries()[k].0,
                        record_fields.entries()[k].1.deep_view(),
                    ));
                }
                assert(copy.deep_entries().len() == record_fields.deep_entries().len());
                assert(copy.entries() =~= record_fields.entries());
            }
            copy
        },
        _ => {
            let mut message = owned("record initializer requires a record expected type, got '");
            let shown = describe_type(typed, expected_type);
            push_text(&mut message, shown.as_str());
            push_text(&mut message, "'");
            return Err(TypecheckError::at(TypecheckErrorKind::InvalidInput, message.as_str(), origin));
        },
    };
    let ghost ef = expected_fields.entries();
    proof {
        assert(type_at(f0, apparent) == Some(CheckedTypeView::Record { fields: ef }));
        assert forall|k: int| 0 <= k < ef.len() implies (#[trigger] ef[k]).1.0 < f0.types.len() by {
            assert(renders_into(f0.types[apparent.0 as int], ef[k].1));
        }
    }
    let mut seen: SortedMap<String, ()> = SortedMap::new();
    let mut effects: Vec<Option<RecoverableCallEffect>> = Vec::new();
    let mut i: usize = 0;
    proof {
        assert(seen.as_map().dom() =~= Set::<Seq<char>>::empty());
        assert(effects@ =~= Seq::<Option<RecoverableCallEffect>>::empty());
    }
    while i < fields.len()
        invariant
            i <= fields@.len(),
            walk_ready(typed.facts(), typed.symbol_facts()),
            loop_walks_end(resolution, context.repeating_loop_scope),
            typed.symbol_facts() == sy,
            extends(f0, typed.facts()),
            f0 == old(typed).facts(),
            sy == old(typed).symbol_facts(),
            o0 == old(typed).ownership(),
            never == old(typed).builtin_ids().never,
            expected == Some(expected_type),
            apparent_outcome(f0, sy, expected_type) == Ok::<CheckedTypeId, ()>(apparent),
            type_at(f0, apparent) == Some(CheckedTypeView::Record { fields: ef }),
            origin_view(origin) == initializer_origin(resolution, fields@),
            ef == expected_fields.entries(),
            forall|k: int| 0 <= k < ef.len() ==> (#[trigger] ef[k]).1.0 < f0.types.len(),
            record_fields_outcome(f0, sy, o0, resolution, context, never, ef, fields@, i as int) == (
            Ok::<_, TypecheckErrorView>((seen.as_map().dom(), effects@)),
            typed.facts(),
            typed.ownership(),
            ),
        decreases fields@.len() - i,
    {
        let effect = match type_record_field(
            typed,
            resolution,
            context,
            never,
            &expected_fields,
            &seen,
            &fields[i].0,
            &fields[i].1,
        ) {
            Ok(effect) => effect,
            Err(e) => {
                proof {
                    lemma_fields_error_stays(
                        f0,
                        sy,
                        o0,
                        resolution,
                        context,
                        never,
                        ef,
                        fields@,
                        i + 1,
                        fields@.len() as int,
                    );
                }
                return Err(e);
            },
        };
        let ghost old_seen_dom = seen.as_map().dom();
        seen.insert(owned(fields[i].0.as_str()), ());
        effects.push(effect);
        proof {
            assert(seen.as_map().dom() =~= old_seen_dom.insert(fields@[i as int].0@));
        }
        i = i + 1;
    }
    let layout = typed.record_layout(apparent);
    let ghost defaulted = defaulted_fields(typed.facts(), apparent);
    proof {
        assert forall|name: Seq<char>| #[trigger] defaulted.contains(name) <==> (layout matches Some(l)
            && exists|j: int|
            0 <= j < l@.len() && #[trigger] l@[j]@.name == name && l@[j]@.default is Some) by {
            match layout {
                Some(l) => {
                    let lv = typed.facts().record_layouts[apparent];
                    assert(lv == crate::model::layout_view(l@));
                    if defaulted.contains(name) {
                        let j = choose|j: int|
                            0 <= j < lv.len() && #[trigger] lv[j].name == name && lv[j].default is Some;
                        assert(l@[j]@ == lv[j]);
                    }
                    if exists|j: int| 0 <= j < l@.len() && #[trigger] l@[j]@.name == name && l@[j]@.default is Some {
                        let j = choose|j: int|
                            0 <= j < l@.len() && #[trigger] l@[j]@.name == name && l@[j]@.default is Some;
                        assert(l@[j]@ == lv[j]);
                    }
                },
                None => {},
            }
        }
    }
    let missing = missing_field_names(&expected_fields, &seen, layout, Ghost(defaulted));
    if missing.len() > 0 {
        let message = missing_fields_message(&missing);
        return Err(TypecheckError::at(TypecheckErrorKind::IncompatibleType, message.as_str(), origin));
    }
    let merged = match merge_recoverable_effects(typed, origin, "record initializer", &effects) {
        Ok(m) => m,
        Err(e) => {
            return Err(e);
        },
    };
    Ok(TypedExpr { value_type: Some(expected_type), recoverable_effect: merged })
}

/// The names given by the first `n` fields of a record initializer.
pub open spec fn given_names(fields: Seq<(String, Expr)>, n: int) -> Set<Seq<char>> {
    Set::new(|name: Seq<char>| exists|i: int| 0 <= i < n && #[trigger] fields[i].0@ == name)
}

/// Typing the first `n` fields, when it succeeds, gives each a distinct name
/// that the record type defines, and records exactly those names with one
/// effect per field.
proof fn lemma_fields_given(
    facts: FactsView,
    symbols: Map<SymbolId, TypedSymbol>,
    o: OwnershipView,
    resolution: &Resolution,
    context: TypeContext,
    never: CheckedTypeId,
    expected_fields: Seq<(Seq<char>, CheckedTypeId)>,
    fields: Seq<(String, Expr)>,
    n: int,
)
    requires
        0 <= n <= fields.len(),
        record_fields_outcome(facts, symbols, o, resolution, context, never, expected_fields, fields, n).0 is Ok,
    ensures
        ({
            let (given, effects) = record_fields_outcome(
                facts,
                symbols,
                o,
                resolution,
                context,
                never,
                expected_fields,
                fields,
                n,
            ).0->Ok_0;
            &&& given == given_names(fields, n)
            &&& effects.len() == n
            &&& forall|i: int| 0 <= i < n ==> field_from(expected_fields, #[trigger] fields[i].0@, 0) is Some
            &&& forall|i: int, j: int| 0 <= i < j < n ==> #[trigger] fields[i].0@ != #[trigger] fields[j].0@
        }),
    decreases n,
{
    if n > 0 {
        lemma_fields_given(facts, symbols, o, resolution, context, never, expected_fields, fields, n - 1);
        let (given, effects) = record_fields_outcome(
            facts,
            symbols,
            o,
            resolution,
            context,
            never,
            expected_fields,
            fields,
            n - 1,
        ).0->Ok_0;
        assert(given.insert(fields[n - 1].0@) =~= given_names(fields, n));
        assert forall|i: int| 0 <= i < n - 1 implies #[trigger] fields[i].0@ != fields[n - 1].0@ by {
            assert(given.contains(fields[i].0@));
        }
    } else {
        assert(Set::<Seq<char>>::empty() =~= given_names(fields, 0));
    }
}

/// When no field of the first `n` is missing, each is given or defaulted.
proof fn lemma_none_missing(
    expected_fields: Seq<(Seq<char>, CheckedTypeId)>,
    given: Set<Seq<char>>,
    defaulted: Set<Seq<char>>,
    n: int,
)
    requires
        n <= expected_fields.len(),
        missing_fields(expected_fields, given, defaulted, n).len() == 0,
    ensures
        forall|k: int|
            0 <= k < n ==> given.contains(#[trigger] expected_fields[k].0) || defaulted.contains(
                expected_fields[k].0,
            ),
    decreases n,
{
    if n > 0 {
        let prev = missing_fields(expected_fields, given, defaulted, n - 1);
        if !given.contains(expected_fields[n - 1].0) && !defaulted.contains(expected_fields[n - 1].0) {
            assert(prev.push(expected_fields[n - 1].0).len() > 0);
        }
        lemma_none_missing(expected_fields, given, defaulted, n - 1);
    }
}

/// A record initializer that is accepted builds a value of the expected
/// type, which is a record type; its fields have distinct names that the
/// record type defines; and every field of the record type without a
/// declared default is given.
pub proof fn law_accepted_record_initializer_gives_required_fields(
    facts: FactsView,
    symbols: Map<SymbolId, TypedSymbol>,
    o: OwnershipView,
    resolution: &Resolution,
    context: TypeContext,
    never: CheckedTypeId,
    fields: Seq<(String, Expr)>,
    expected: Option<CheckedTypeId>,
)
    requires
        record_init_outcome(facts, symbols, o, resolution, context, never, fields, expected).0 is Ok,
    ensures
        ({
            let (r, after, _) = record_init_outcome(facts, symbols, o, resolution, context, never, fields, expected);
            let e = expected->0;
            let a = apparent_outcome(facts, symbols, e)->Ok_0;
            let record_fields = type_at(facts, a)->0->Record_fields;
            &&& expected is Some
            &&& r->Ok_0.value_type == Some(e)
            &&& apparent_outcome(facts, symbols, e) is Ok
            &&& type_at(facts, a) matches Some(CheckedTypeView::Record { .. })
            &&& forall|i: int| 0 <= i < fields.len() ==> field_from(record_fields, #[trigger] fields[i].0@, 0) is Some
            &&& forall|i: int, j: int| 0 <= i < j < fields.len() ==> #[trigger] fields[i].0@ != #[trigger] fields[j].0@
            &&& forall|k: int|
                0 <= k < record_fields.len() && !defaulted_fields(after, a).contains(#[trigger] record_fields[k].0)
                    ==> exists|i: int| 0 <= i < fields.len() && #[trigger] fields[i].0@ == record_fields[k].0
        }),
{
    let e = expected->0;
    let a = apparent_outcome(facts, symbols, e)->Ok_0;
    let record_fields = type_at(facts, a)->0->Record_fields;
    let (r, after, o1) = record_fields_outcome(
        facts,
        symbols,
        o,
        resolution,
        context,
        never,
        record_fields,
        fields,
        fields.len() as int,
    );
    lemma_fields_given(facts, symbols, o, resolution, context, never, record_fields, fields, fields.len() as int);
    let (given, effects) = r->Ok_0;
    lemma_none_missing(record_fields, given, defaulted_fields(after, a), record_fields.len() as int);
    assert forall|k: int|
        0 <= k < record_fields.len() && !defaulted_fields(after, a).contains(#[trigger] record_fields[k].0)
            implies exists|i: int| 0 <= i < fields.len() && #[trigger] fields[i].0@ == record_fields[k].0 by {
        assert(given.contains(record_fields[k].0));
    }
}

} // verus!
