//! Container literals and iteration: the container shape an expected type
//! asks a literal for, interning the shape a linear literal gets, the
//! containers a core build cannot allocate, and the element type a loop
//! walks.
use crate::apparent::{
    apparent_outcome, apparent_resolves, apparent_type_id, cycle_error, describe_type, result_view,
    type_at,
};
use crate::config::TypecheckCapabilityModel;
use crate::errors::{TypecheckError, TypecheckErrorKind, TypecheckErrorView};
use crate::ids::{SymbolId, SyntaxOrigin};
use crate::model::{TypedProgram, TypedSymbol};
use crate::ownership::FactsView;
use crate::rejections::{error_at, origin_view};
use crate::render::{acyclic, rendered};
use crate::text::{decimal, decimal_text};
use crate::types::{intern_spec, CheckedType, CheckedTypeId, CheckedTypeView};
use vstd::prelude::*;

verus! {

/// The kind of a container literal.
#[derive(Clone, Copy, Debug, PartialEq, Eq, Structural)]
pub enum ContainerType {
    Array,
    Vector,
    Sequence,
    SetOf,
    MapOf,
}

/// The container an expected type asks a literal to build.
#[derive(Debug, Clone, PartialEq, Eq)]
pub enum ExpectedContainerShape {
    Array { element_type: CheckedTypeId, size: Option<usize> },
    Vector { element_type: CheckedTypeId },
    Sequence { element_type: CheckedTypeId },
    SetOf { member_types: Vec<CheckedTypeId> },
    MapOf { key_type: CheckedTypeId, value_type: CheckedTypeId },
}

/// The value of an `ExpectedContainerShape`.
pub enum ContainerShapeView {
    Array { element_type: CheckedTypeId, size: Option<usize> },
    Vector { element_type: CheckedTypeId },
    Sequence { element_type: CheckedTypeId },
    SetOf { member_types: Seq<CheckedTypeId> },
    MapOf { key_type: CheckedTypeId, value_type: CheckedTypeId },
}

impl View for ExpectedContainerShape {
    type V = ContainerShapeView;

    open spec fn view(&self) -> ContainerShapeView {
        match self {
            ExpectedContainerShape::Array { element_type, size } => ContainerShapeView::Array {
                element_type: *element_type,
                size: *size,
            },
            ExpectedContainerShape::Vector { element_type } => ContainerShapeView::Vector {
                element_type: *element_type,
            },
            ExpectedContainerShape::Sequence { element_type } => ContainerShapeView::Sequence {
                element_type: *element_type,
            },
            ExpectedContainerShape::SetOf { member_types } => ContainerShapeView::SetOf {
                member_types: member_types@,
            },
            ExpectedContainerShape::MapOf { key_type, value_type } => ContainerShapeView::MapOf {
                key_type: *key_type,
                value_type: *value_type,
            },
        }
    }
}

/// The kind of container a shape is.
pub open spec fn shape_kind(shape: ContainerShapeView) -> ContainerType {
    match shape {
        ContainerShapeView::Array { .. } => ContainerType::Array,
        ContainerShapeView::Vector { .. } => ContainerType::Vector,
        ContainerShapeView::Sequence { .. } => ContainerType::Sequence,
        ContainerShapeView::SetOf { .. } => ContainerType::SetOf,
        ContainerShapeView::MapOf { .. } => ContainerType::MapOf,
    }
}

impl ExpectedContainerShape {
    /// The kind of container this shape is.
    pub fn kind(&self) -> (r: ContainerType)
        ensures
            r == shape_kind(self@),
    {
        match self {
            ExpectedContainerShape::Array { .. } => ContainerType::Array,
            ExpectedContainerShape::Vector { .. } => ContainerType::Vector,
            ExpectedContainerShape::Sequence { .. } => ContainerType::Sequence,
            ExpectedContainerShape::SetOf { .. } => ContainerType::SetOf,
            ExpectedContainerShape::MapOf { .. } => ContainerType::MapOf,
        }
    }
}

/// The container shape of a type stored as `t`, if it is a container.
pub open spec fn shape_of(t: Option<CheckedTypeView>) -> Option<ContainerShapeView> {
    match t {
        Some(CheckedTypeView::Array { element_type, size }) => Some(
            ContainerShapeView::Array { element_type, size },
        ),
        Some(CheckedTypeView::Vector { element_type }) => Some(
            ContainerShapeView::Vector { element_type },
        ),
        Some(CheckedTypeView::Sequence { element_type }) => Some(
            ContainerShapeView::Sequence { element_type },
        ),
        Some(CheckedTypeView::SetOf { member_types }) => Some(
            ContainerShapeView::SetOf { member_types },
        ),
        Some(CheckedTypeView::MapOf { key_type, value_type }) => Some(
            ContainerShapeView::MapOf { key_type, value_type },
        ),
        _ => None,
    }
}

/// The container shape `expected_type` asks a literal for: that of its
/// apparent type, or none when that is no container.
pub fn expected_container_shape(typed: &TypedProgram, expected_type: CheckedTypeId) -> (r: Result<
    Option<ExpectedContainerShape>,
    TypecheckError,
>)
    requires
        apparent_resolves(typed.facts(), typed.symbol_facts(), expected_type),
    ensures
        match apparent_outcome(typed.facts(), typed.symbol_facts(), expected_type) {
            Ok(a) => match r {
                Ok(Some(shape)) => shape_of(type_at(typed.facts(), a)) == Some(shape@),
                Ok(None) => shape_of(type_at(typed.facts(), a)) is None,
                Err(_) => false,
            },
            Err(_) => result_view(r) == Err::<Option<ExpectedContainerShape>, _>(cycle_error()),
        },
{
    proof {
        typed.lemma_state_fields();
    }
    let apparent = match apparent_type_id(typed, expected_type) {
        Ok(a) => a,
        Err(e) => {
            return Err(e);
        },
    };
    Ok(
        match typed.type_table().get(apparent) {
            Some(CheckedType::Array { element_type, size }) => Some(
                ExpectedContainerShape::Array { element_type: *element_type, size: *size },
            ),
            Some(CheckedType::Vector { element_type }) => Some(
                ExpectedContainerShape::Vector { element_type: *element_type },
            ),
            Some(CheckedType::Sequence { element_type }) => Some(
                ExpectedContainerShape::Sequence { element_type: *element_type },
            ),
            Some(CheckedType::SetOf { member_types }) => Some(
                ExpectedContainerShape::SetOf { member_types: copy_ids(member_types) },
            ),
            Some(CheckedType::MapOf { key_type, value_type }) => Some(
                ExpectedContainerShape::MapOf { key_type: *key_type, value_type: *value_type },
            ),
            _ => None,
        },
    )
}

/// A copy of a list of type ids.
fn copy_ids(ids: &Vec<CheckedTypeId>) -> (r: Vec<CheckedTypeId>)
    ensures
        r@ == ids@,
{
    let mut out: Vec<CheckedTypeId> = Vec::new();
    let mut i: usize = 0;
    while i < ids.len()
        invariant
            i <= ids@.len(),
            out@ == ids@.take(i as int),
        decreases ids@.len() - i,
    {
        out.push(ids[i]);
        proof {
            assert(ids@.take(i + 1) =~= ids@.take(i as int).push(ids@[i as int]));
        }
        i = i + 1;
    }
    proof {
        assert(ids@.take(i as int) =~= ids@);
    }
    out
}

/// The type a linear (array, vector or sequence) literal of kind `kind`
/// with elements of `element_type` has; an array keeps `array_size`.
pub open spec fn linear_shape(
    kind: ContainerType,
    element_type: CheckedTypeId,
    array_size: Option<usize>,
) -> CheckedTypeView {
    match kind {
        ContainerType::Array => CheckedTypeView::Array { element_type, size: array_size },
        ContainerType::Vector => CheckedTypeView::Vector { element_type },
        _ => CheckedTypeView::Sequence { element_type },
    }
}

/// Interns the type of a linear literal of kind `kind`. Set and map
/// literals get their types elsewhere.
pub fn intern_linear_container_shape(
    typed: &mut TypedProgram,
    kind: ContainerType,
    element_type: CheckedTypeId,
    array_size: Option<usize>,
) -> (id: CheckedTypeId)
    requires
        kind == ContainerType::Array || kind == ContainerType::Vector || kind
            == ContainerType::Sequence,
    ensures
        (final(typed).facts().types, id.0 as int) == intern_spec(
            old(typed).facts().types,
            linear_shape(kind, element_type, array_size),
        ),
        final(typed).facts() == (FactsView { types: final(typed).facts().types, ..old(typed).facts() }),
        final(typed).ownership() == old(typed).ownership(),
        final(typed).symbol_facts() == old(typed).symbol_facts(),
{
    match kind {
        ContainerType::Array => typed.intern_type(CheckedType::Array { element_type, size: array_size }),
        ContainerType::Vector => typed.intern_type(CheckedType::Vector { element_type }),
        _ => typed.intern_type(CheckedType::Sequence { element_type }),
    }
}

/// How a container literal of kind `kind` is named in diagnostics, for the
/// kinds that allocate on the heap.
pub open spec fn heap_literal_label(kind: ContainerType) -> Seq<char> {
    match kind {
        ContainerType::Vector => "vec[...] literals"@,
        ContainerType::Sequence => "seq[...] literals"@,
        ContainerType::SetOf => "set[...] literals"@,
        _ => "map[...] literals"@,
    }
}

/// Refuses a container literal of kind `kind` that needs the heap when the
/// program is built for the core capability model; arrays never need it.
/// `origin` is where the literal's first element stands, when known.
pub fn reject_heap_backed_container_kind_in_core(
    typed: &TypedProgram,
    kind: ContainerType,
    origin: Option<SyntaxOrigin>,
) -> (r: Result<(), TypecheckError>)
    ensures
        result_view(r) == (if typed.facts().capability_model == TypecheckCapabilityModel::Core
            && kind != ContainerType::Array {
            Err(
                error_at(
                    TypecheckErrorKind::Unsupported,
                    heap_literal_label(kind)
                        + " require heap support and are unavailable in 'fol_model = core'"@,
                    origin_view(origin),
                ),
            )
        } else {
            Ok(())
        }),
{
    proof {
        typed.lemma_state_fields();
    }
    match typed.capability_model() {
        TypecheckCapabilityModel::Core => {},
        _ => {
            return Ok(());
        },
    }
    let label = match kind {
        ContainerType::Array => {
            return Ok(());
        },
        ContainerType::Vector => "vec[...] literals",
        ContainerType::Sequence => "seq[...] literals",
        ContainerType::SetOf => "set[...] literals",
        ContainerType::MapOf => "map[...] literals",
    };
    let mut message = crate::text::owned(label);
    crate::text::push_text(
        &mut message,
        " require heap support and are unavailable in 'fol_model = core'",
    );
    Err(TypecheckError::at(TypecheckErrorKind::Unsupported, message.as_str(), origin))
}

/// All of `ids` equal the first.
pub open spec fn all_same(ids: Seq<CheckedTypeId>) -> bool {
    forall|i: int| 0 <= i < ids.len() ==> #[trigger] ids[i] == ids[0]
}

/// What iterating a value of type `iterable_type` walks, given its apparent
/// type `a`: the element type of an array, vector or sequence, the one
/// member type of a set whose members all have it; otherwise a diagnostic.
pub open spec fn iteration_outcome(
    facts: FactsView,
    iterable_type: CheckedTypeId,
    a: CheckedTypeId,
) -> Result<CheckedTypeId, TypecheckErrorView> {
    match type_at(facts, a) {
        Some(CheckedTypeView::Array { element_type, .. }) => Ok(element_type),
        Some(CheckedTypeView::Vector { element_type }) => Ok(element_type),
        Some(CheckedTypeView::Sequence { element_type }) => Ok(element_type),
        Some(CheckedTypeView::SetOf { member_types }) => if member_types.len() == 0 {
            Err(
                error_at(
                    TypecheckErrorKind::InvalidInput,
                    "cannot infer an iteration element type from an empty set"@,
                    None,
                ),
            )
        } else if all_same(member_types) {
            Ok(member_types[0])
        } else {
            Err(
                error_at(
                    TypecheckErrorKind::Unsupported,
                    "heterogeneous set iteration is not yet supported"@,
                    None,
                ),
            )
        },
        _ => Err(
            error_at(
                TypecheckErrorKind::InvalidInput,
                "loop iteration requires an array, vector, sequence, or homogeneous set receiver, got '"@
                    + rendered(facts.types, iterable_type) + "'"@,
                None,
            ),
        ),
    }
}

/// Whether all of `ids` equal the first.
fn all_equal(ids: &Vec<CheckedTypeId>) -> (r: bool)
    requires
        ids@.len() > 0,
    ensures
        r == all_same(ids@),
{
    let first = ids[0];
    let mut i: usize = 0;
    while i < ids.len()
        invariant
            i <= ids@.len(),
            ids@.len() > 0,
            first == ids@[0],
            forall|j: int| 0 <= j < i ==> #[trigger] ids@[j] == first,
        decreases ids@.len() - i,
    {
        if ids[i].0 != first.0 {
            proof {
                assert(ids@[i as int] != ids@[0]);
            }
            return false;
        }
        i = i + 1;
    }
    true
}

/// The element type a loop over a value of type `iterable_type` binds.
pub fn iterable_element_type(typed: &TypedProgram, iterable_type: CheckedTypeId) -> (r: Result<
    CheckedTypeId,
    TypecheckError,
>)
    requires
        apparent_resolves(typed.facts(), typed.symbol_facts(), iterable_type),
        acyclic(typed.facts().types),
    ensures
        result_view(r) == match apparent_outcome(typed.facts(), typed.symbol_facts(), iterable_type) {
            Ok(a) => iteration_outcome(typed.facts(), iterable_type, a),
            Err(_) => Err(cycle_error()),
        },
{
    proof {
        typed.lemma_state_fields();
    }
    let apparent = match apparent_type_id(typed, iterable_type) {
        Ok(a) => a,
        Err(e) => {
            return Err(e);
        },
    };
    match typed.type_table().get(apparent) {
        Some(CheckedType::Array { element_type, .. }) => Ok(*element_type),
        Some(CheckedType::Vector { element_type }) => Ok(*element_type),
        Some(CheckedType::Sequence { element_type }) => Ok(*element_type),
        Some(CheckedType::SetOf { member_types }) => {
            if member_types.len() == 0 {
                return Err(
                    TypecheckError::new(
                        TypecheckErrorKind::InvalidInput,
                        "cannot infer an iteration element type from an empty set",
                    ),
                );
            }
            if all_equal(member_types) {
                Ok(member_types[0])
            } else {
                Err(
                    TypecheckError::new(
                        TypecheckErrorKind::Unsupported,
                        "heterogeneous set iteration is not yet supported",
                    ),
                )
            }
        },
        _ => {
            let mut message = crate::text::owned(
                "loop iteration requires an array, vector, sequence, or homogeneous set receiver, got '",
            );
            let described = describe_type(typed, iterable_type);
            crate::text::push_text(&mut message, described.as_str());
            crate::text::push_text(&mut message, "'");
            Err(TypecheckError::new(TypecheckErrorKind::InvalidInput, message.as_str()))
        },
    }
}

/// The member type an index into a set with `member_types` yields. `index`
/// is the index when it is written as an integer literal: such an index
/// picks its member; any other index needs every member to have one type.
pub open spec fn set_index_outcome(member_types: Seq<CheckedTypeId>, index: Option<i64>) -> Result<
    Option<CheckedTypeId>,
    TypecheckErrorView,
> {
    match index {
        None => if member_types.len() == 0 {
            Err(
                error_at(
                    TypecheckErrorKind::InvalidInput,
                    "cannot index an empty set value in V1"@,
                    None,
                ),
            )
        } else if all_same(member_types) {
            Ok(Some(member_types[0]))
        } else {
            Err(
                error_at(
                    TypecheckErrorKind::Unsupported,
                    "non-literal indexing into heterogeneous sets is not yet supported"@,
                    None,
                ),
            )
        },
        Some(i) => if i < 0 {
            Err(
                error_at(
                    TypecheckErrorKind::InvalidInput,
                    "set index literals must be non-negative"@,
                    None,
                ),
            )
        } else if (i as usize) < member_types.len() {
            Ok(Some(member_types[(i as usize) as int]))
        } else {
            Err(
                error_at(
                    TypecheckErrorKind::InvalidInput,
                    "set index "@ + decimal_text(i as nat) + " is out of bounds for a "@
                        + decimal_text(member_types.len()) + "-member set"@,
                    None,
                ),
            )
        },
    }
}

/// The member type an index into a set with `member_types` yields; `index`
/// is the index's value when it is an integer literal.
pub fn type_set_index_access(
    typed: &TypedProgram,
    member_types: &[CheckedTypeId],
    index: Option<i64>,
) -> (r: Result<Option<CheckedTypeId>, TypecheckError>)
    ensures
        result_view(r) == set_index_outcome(member_types@, index),
{
    let index_value = match index {
        Some(v) => v,
        None => {
            if member_types.len() == 0 {
                return Err(
                    TypecheckError::new(
                        TypecheckErrorKind::InvalidInput,
                        "cannot index an empty set value in V1",
                    ),
                );
            }
            let members = slice_ids(member_types);
            if all_equal(&members) {
                return Ok(Some(member_types[0]));
            }
            return Err(
                TypecheckError::new(
                    TypecheckErrorKind::Unsupported,
                    "non-literal indexing into heterogeneous sets is not yet supported",
                ),
            );
        },
    };
    if index_value < 0 {
        return Err(
            TypecheckError::new(
                TypecheckErrorKind::InvalidInput,
                "set index literals must be non-negative",
            ),
        );
    }
    let position = index_value as usize;
    if position < member_types.len() {
        Ok(Some(member_types[position]))
    } else {
        let mut message = crate::text::owned("set index ");
        let index_text = decimal(index_value as u64);
        crate::text::push_text(&mut message, index_text.as_str());
        crate::text::push_text(&mut message, " is out of bounds for a ");
        let count_text = decimal(member_types.len() as u64);
        crate::text::push_text(&mut message, count_text.as_str());
        crate::text::push_text(&mut message, "-member set");
        Err(TypecheckError::new(TypecheckErrorKind::InvalidInput, message.as_str()))
    }
}

/// The type ids of a slice, as a vector.
fn slice_ids(ids: &[CheckedTypeId]) -> (r: Vec<CheckedTypeId>)
    ensures
        r@ == ids@,
{
    let mut out: Vec<CheckedTypeId> = Vec::new();
    let mut i: usize = 0;
    while i < ids.len()
        invariant
            i <= ids@.len(),
            out@ == ids@.take(i as int),
        decreases ids@.len() - i,
    {
        out.push(ids[i]);
        proof {
            assert(ids@.take(i + 1) =~= ids@.take(i as int).push(ids@[i as int]));
        }
        i = i + 1;
    }
    proof {
        assert(ids@.take(i as int) =~= ids@);
    }
    out
}

/// A loop over an array, vector or sequence (by apparent type) binds its
/// element type; over a set whose members all have one type, that type.
pub proof fn law_loops_bind_the_element_type(
    facts: FactsView,
    symbols: Map<SymbolId, TypedSymbol>,
    iterable_type: CheckedTypeId,
    a: CheckedTypeId,
    element: CheckedTypeId,
)
    requires
        apparent_outcome(facts, symbols, iterable_type) == Ok::<CheckedTypeId, ()>(a),
    ensures
        ({
            let outcome = match apparent_outcome(facts, symbols, iterable_type) {
                Ok(x) => iteration_outcome(facts, iterable_type, x),
                Err(_) => Err(cycle_error()),
            };
            &&& (type_at(facts, a) == Some(CheckedTypeView::Vector { element_type: element }) || type_at(facts, a)
                == Some(CheckedTypeView::Sequence { element_type: element }) || exists|size: Option<usize>|
                type_at(facts, a) == Some(CheckedTypeView::Array { element_type: element, size })) ==> outcome
                == Ok::<CheckedTypeId, TypecheckErrorView>(element)
            &&& (exists|members: Seq<CheckedTypeId>|
                type_at(facts, a) == Some(CheckedTypeView::SetOf { member_types: members }) && members.len() > 0
                    && forall|i: int| 0 <= i < members.len() ==> members[i] == element) ==> outcome == Ok::<
                CheckedTypeId,
                TypecheckErrorView,
            >(element)
        }),
{
    if exists|members: Seq<CheckedTypeId>|
        type_at(facts, a) == Some(CheckedTypeView::SetOf { member_types: members }) && members.len() > 0
            && forall|i: int| 0 <= i < members.len() ==> members[i] == element {
        let members = choose|members: Seq<CheckedTypeId>|
            type_at(facts, a) == Some(CheckedTypeView::SetOf { member_types: members }) && members.len() > 0
                && forall|i: int| 0 <= i < members.len() ==> members[i] == element;
        assert(members[0] == element);
    }
}

} // verus!
