//! Whether the target of an assignment may be assigned: a mutable binding,
//! a field of a mutable record binding, an element of a mutable array or
//! vector, or the pointee of a unique pointer.
use crate::apparent::{apparent_outcome, apparent_resolves, apparent_type_id, cycle_error, result_view, type_at};
use crate::borrows::allows_mutable_borrow;
use crate::errors::{TypecheckError, TypecheckErrorKind, TypecheckErrorView};
use crate::facts::resolves_to_fin;
use crate::ids::{ScopeId, SourceUnitId, SymbolId, SyntaxOrigin};
use crate::model::{TypedProgram, TypedSymbol};
use crate::ownership::FactsView;
use crate::rejections::{error_at, origin_view};
use crate::resolution::{Resolution, SymbolKind};
use crate::scope_rules::{
    assignable_kinds, binding_is_mutable_by_name, ensure_binding_reassignable, find_first_kind,
    kind_lookups_end, lookup_first_kind, reassignable_kinds,
};
use crate::shapes::{ownership_moves_on_transfer, reaches, TypeQuery};
use crate::text::{owned, push_text, text_eq};
use crate::types::{CheckedType, CheckedTypeId, CheckedTypeView};
use vstd::prelude::*;

verus! {

/// What holds the element an indexed assignment writes.
pub enum ElementBase<'a> {
    /// The binding is the container: `cells[i]`.
    Binding(&'a str),
    /// A field of the binding is the container: `self.ram[i]`.
    FieldOf(&'a str, &'a str),
    /// A field of something other than a plain binding.
    NestedField,
    /// Any other expression.
    Other,
}

/// The target of an assignment, as far as deciding whether it may be
/// assigned reads it.
pub enum AssignmentTarget<'a> {
    /// A bare name, or a qualified name joined by `::`.
    Name(&'a str),
    /// The field `field` of the binding `object`; `None` when the object is
    /// not a plain binding.
    Field { object: Option<&'a str>, field: &'a str },
    /// An element of a container, with the position of the target's first
    /// syntax node.
    Element { base: ElementBase<'a>, origin: Option<SyntaxOrigin> },
    /// The pointee of the pointer binding `pointer`; `None` when the operand
    /// is not a plain name. With the position of the target's first syntax
    /// node.
    Deref { pointer: Option<&'a str>, origin: Option<SyntaxOrigin> },
    /// Any other expression.
    Other,
}

/// The kinds an indexed binding is looked up as, in turn.
pub open spec fn container_kinds() -> Seq<SymbolKind> {
    seq![SymbolKind::ValueBinding, SymbolKind::Parameter]
}

/// The kinds a dereferenced pointer binding is looked up as.
pub open spec fn pointer_kinds() -> Seq<SymbolKind> {
    seq![SymbolKind::ValueBinding]
}

/// Every name lookup deciding about `target` from `scope` ends.
pub open spec fn target_lookups_end(
    resolved: &Resolution,
    unit: SourceUnitId,
    scope: ScopeId,
    target: AssignmentTarget,
) -> bool {
    match target {
        AssignmentTarget::Name(n) => kind_lookups_end(resolved, unit, scope, n@, reassignable_kinds()),
        AssignmentTarget::Field { object: Some(b), .. } => kind_lookups_end(
            resolved,
            unit,
            scope,
            b@,
            assignable_kinds(),
        ),
        AssignmentTarget::Element { base: ElementBase::Binding(b), .. }
        | AssignmentTarget::Element { base: ElementBase::FieldOf(b, _), .. } => {
            &&& kind_lookups_end(resolved, unit, scope, b@, assignable_kinds())
            &&& kind_lookups_end(resolved, unit, scope, b@, container_kinds())
        },
        AssignmentTarget::Deref { pointer: Some(n), .. } => {
            &&& kind_lookups_end(resolved, unit, scope, n@, reassignable_kinds())
            &&& kind_lookups_end(resolved, unit, scope, n@, pointer_kinds())
        },
        _ => true,
    }
}

/// The typed facts of the symbol `name` resolves to as the first of
/// `kinds`, if the checker knows it.
pub open spec fn known_symbol(
    symbols: Map<SymbolId, TypedSymbol>,
    resolved: &Resolution,
    unit: SourceUnitId,
    scope: ScopeId,
    name: Seq<char>,
    kinds: Seq<SymbolKind>,
) -> Option<TypedSymbol> {
    match lookup_first_kind(resolved, unit, scope, name, kinds) {
        Some(s) => if symbols.contains_key(s) {
            Some(symbols[s])
        } else {
            None
        },
        None => None,
    }
}

/// Refusing to reassign `name` when it is a known immutable binding.
pub open spec fn reassign_outcome(
    symbols: Map<SymbolId, TypedSymbol>,
    resolved: &Resolution,
    unit: SourceUnitId,
    scope: ScopeId,
    name: Seq<char>,
) -> Result<(), TypecheckErrorView> {
    match known_symbol(symbols, resolved, unit, scope, name, reassignable_kinds()) {
        Some(s) => if !s.is_mutable {
            Err(
                error_at(
                    TypecheckErrorKind::InvalidInput,
                    "cannot reassign immutable binding '"@ + name + "'"@,
                    None,
                ),
            )
        } else {
            Ok(())
        },
        None => Ok(()),
    }
}

/// Whether `name` is a binding that may be assigned through.
pub open spec fn mutable_by_name(
    facts: FactsView,
    symbols: Map<SymbolId, TypedSymbol>,
    resolved: &Resolution,
    unit: SourceUnitId,
    scope: ScopeId,
    name: Seq<char>,
) -> bool {
    match lookup_first_kind(resolved, unit, scope, name, assignable_kinds()) {
        Some(id) => allows_mutable_borrow(facts, symbols, id),
        None => false,
    }
}

/// The type of the field `name` among `fields`, looking from position `i`.
pub open spec fn field_from(fields: Seq<(Seq<char>, CheckedTypeId)>, name: Seq<char>, i: int) -> Option<
    CheckedTypeId,
>
    decreases fields.len() - i,
{
    if i < 0 || i >= fields.len() {
        None
    } else if fields[i].0 == name {
        Some(fields[i].1)
    } else {
        field_from(fields, name, i + 1)
    }
}

/// The container an indexed assignment into `binding`, or into its field
/// `through`, writes: the apparent type of the binding or of that field.
pub open spec fn container_outcome(
    facts: FactsView,
    symbols: Map<SymbolId, TypedSymbol>,
    binding: Seq<char>,
    binding_type: CheckedTypeId,
    through: Option<Seq<char>>,
) -> Result<CheckedTypeId, TypecheckErrorView> {
    match apparent_outcome(facts, symbols, binding_type) {
        Err(_) => Err(cycle_error()),
        Ok(bt) => match through {
            None => Ok(bt),
            Some(field) => match type_at(facts, bt) {
                Some(CheckedTypeView::Record { fields }) => match field_from(fields, field, 0) {
                    Some(ft) => match apparent_outcome(facts, symbols, ft) {
                        Ok(ct) => Ok(ct),
                        Err(_) => Err(cycle_error()),
                    },
                    None => Err(
                        error_at(
                            TypecheckErrorKind::InvalidInput,
                            "'"@ + binding + "' does not expose a field named '"@ + field + "'"@,
                            None,
                        ),
                    ),
                },
                _ => Err(
                    error_at(
                        TypecheckErrorKind::InvalidInput,
                        "indexed assignment through '."@ + field + "' requires a record binding"@,
                        None,
                    ),
                ),
            },
        },
    }
}

/// The element type of the container type `container`, or why its
/// elements cannot be assigned in place.
pub open spec fn element_outcome(facts: FactsView, binding: Seq<char>, container: CheckedTypeId) -> Result<
    CheckedTypeId,
    TypecheckErrorView,
> {
    match type_at(facts, container) {
        Some(CheckedTypeView::Array { element_type, .. }) => Ok(element_type),
        Some(CheckedTypeView::Vector { element_type }) => Ok(element_type),
        Some(CheckedTypeView::Sequence { .. }) => Err(
            error_at(
                TypecheckErrorKind::Unsupported,
                "'seq[T]' is the persistent linked-list family; positional in-place writes are not part of its contract \u{2014} use 'vec[T]'"@,
                None,
            ),
        ),
        Some(CheckedTypeView::MapOf { .. }) => Err(
            error_at(
                TypecheckErrorKind::Unsupported,
                "map elements cannot be assigned; adding or replacing a key is container growth, which is not implemented"@,
                None,
            ),
        ),
        Some(CheckedTypeView::SetOf { .. }) => Err(
            error_at(
                TypecheckErrorKind::Unsupported,
                "'set[...]' is the tuple-member form, where each position has its own type; positional assignment into a set is not defined"@,
                None,
            ),
        ),
        _ => Err(
            error_at(
                TypecheckErrorKind::InvalidInput,
                "indexed assignment requires an 'arr[T,N]' or 'vec[T]' binding, but '"@ + binding
                    + "' is not one"@,
                None,
            ),
        ),
    }
}

/// Whether an element of `binding`, or of its field `through`, may be
/// assigned in place: the binding is mutable, no mutex handle and no
/// shared loan, and has a type; the container is an array or vector; its
/// elements neither finalize nor move.
pub open spec fn element_target_outcome(
    facts: FactsView,
    symbols: Map<SymbolId, TypedSymbol>,
    resolved: &Resolution,
    unit: SourceUnitId,
    scope: ScopeId,
    binding: Seq<char>,
    through: Option<Seq<char>>,
    origin: Option<SyntaxOrigin>,
) -> Result<(), TypecheckErrorView> {
    let known = known_symbol(symbols, resolved, unit, scope, binding, container_kinds());
    let declared = match known {
        Some(s) => s.declared_type,
        None => None,
    };
    if !mutable_by_name(facts, symbols, resolved, unit, scope, binding) {
        Err(
            error_at(
                TypecheckErrorKind::InvalidInput,
                "cannot assign into an element of immutable binding '"@ + binding
                    + "'; declare it with 'var[mut]' to allow element assignment"@,
                None,
            ),
        )
    } else if known matches Some(s) && s.is_mutex {
        Err(
            error_at(
                TypecheckErrorKind::Unsupported,
                "cannot assign into an element of 'mux[T]' binding '"@ + binding
                    + "'; lock it first and assign through the guard"@,
                None,
            ),
        )
    } else if declared matches Some(d) && type_at(facts, d) matches Some(
        CheckedTypeView::Borrowed { mutable: false, .. },
    ) {
        Err(
            error_at(
                TypecheckErrorKind::BorrowMutability,
                "cannot assign into an element through the shared loan '"@ + binding
                    + "'; a '[bor]' view is read-only"@,
                origin_view(origin),
            ),
        )
    } else if declared is None {
        Err(
            error_at(
                TypecheckErrorKind::InvalidInput,
                "indexed assignment target '"@ + binding + "' does not retain a type"@,
                None,
            ),
        )
    } else {
        match container_outcome(facts, symbols, binding, declared->0, through) {
            Err(e) => Err(e),
            Ok(container) => match element_outcome(facts, binding, container) {
                Err(e) => Err(e),
                Ok(element) => if resolves_to_fin(facts, symbols, element) {
                    Err(
                        error_at(
                            TypecheckErrorKind::Unsupported,
                            "cannot replace a 'fin' element in place; a container's 'fin' elements are finalized by a scope-exit walk, and an overwritten element's finalizer would never run \u{2014} move the value out and rebuild the container"@,
                            None,
                        ),
                    )
                } else if reaches(TypeQuery::Moves, facts, symbols, element, true, Set::empty()) {
                    Err(
                        error_at(
                            TypecheckErrorKind::Ownership,
                            "cannot replace a move-only element in place; the displaced value would be dropped without a transfer"@,
                            None,
                        ),
                    )
                } else {
                    Ok(())
                },
            },
        }
    }
}

/// Whether `target`, seen from `scope`, may be assigned.
pub open spec fn assignable_target_outcome(
    facts: FactsView,
    symbols: Map<SymbolId, TypedSymbol>,
    resolved: &Resolution,
    unit: SourceUnitId,
    scope: ScopeId,
    target: AssignmentTarget,
) -> Result<(), TypecheckErrorView> {
    match target {
        AssignmentTarget::Name(n) => reassign_outcome(symbols, resolved, unit, scope, n@),
        AssignmentTarget::Field { object: None, field } => Err(
            error_at(
                TypecheckErrorKind::Unsupported,
                "nested field assignment targets like '."@ + field@
                    + "' are not supported; assign into a field of a mutable binding directly"@,
                None,
            ),
        ),
        AssignmentTarget::Field { object: Some(b), field } => if mutable_by_name(
            facts,
            symbols,
            resolved,
            unit,
            scope,
            b@,
        ) {
            Ok(())
        } else if b@ == "self"@ {
            Err(
                error_at(
                    TypecheckErrorKind::Unsupported,
                    "cannot assign into field '"@ + field@
                        + "' of the method receiver; receiver mutation is not part of the current V1 surface"@,
                    None,
                ),
            )
        } else {
            Err(
                error_at(
                    TypecheckErrorKind::InvalidInput,
                    "cannot assign into field '"@ + field@ + "' of immutable binding '"@ + b@
                        + "'; declare the instance with 'var[mut]' to allow field assignment"@,
                    None,
                ),
            )
        },
        AssignmentTarget::Element { base, origin } => match base {
            ElementBase::Binding(b) => element_target_outcome(
                facts,
                symbols,
                resolved,
                unit,
                scope,
                b@,
                None,
                origin,
            ),
            ElementBase::FieldOf(b, f) => element_target_outcome(
                facts,
                symbols,
                resolved,
                unit,
                scope,
                b@,
                Some(f@),
                origin,
            ),
            ElementBase::NestedField => Err(
                error_at(
                    TypecheckErrorKind::Unsupported,
                    "nested indexed assignment targets are not supported; index a mutable container binding, or one of its fields, directly"@,
                    None,
                ),
            ),
            ElementBase::Other => Err(
                error_at(
                    TypecheckErrorKind::Unsupported,
                    "nested indexed assignment targets are not supported; index a mutable container binding directly"@,
                    None,
                ),
            ),
        },
        AssignmentTarget::Deref { pointer: None, .. } => Err(
            error_at(
                TypecheckErrorKind::InvalidInput,
                "dereference assignment requires a pointer binding identifier"@,
                None,
            ),
        ),
        AssignmentTarget::Deref { pointer: Some(n), origin } => match reassign_outcome(
            symbols,
            resolved,
            unit,
            scope,
            n@,
        ) {
            Err(e) => Err(e),
            Ok(()) => {
                let pointee = match known_symbol(symbols, resolved, unit, scope, n@, pointer_kinds()) {
                    Some(s) => match s.declared_type {
                        Some(d) => type_at(facts, d),
                        None => None,
                    },
                    None => None,
                };
                match pointee {
                    Some(CheckedTypeView::Pointer { shared: false, .. }) => Ok(()),
                    Some(CheckedTypeView::Pointer { shared: true, .. }) => Err(
                        error_at(
                            TypecheckErrorKind::InvalidInput,
                            "cannot write through ptr[shared, T]; shared pointers are read-only"@,
                            origin_view(origin),
                        ),
                    ),
                    _ => Err(
                        error_at(
                            TypecheckErrorKind::InvalidInput,
                            "dereference assignment requires a pointer binding"@,
                            None,
                        ),
                    ),
                }
            },
        },
        AssignmentTarget::Other => Err(
            error_at(
                TypecheckErrorKind::InvalidInput,
                "assignment targets must currently be plain identifiers, qualified identifiers, a field of a mutable record binding, or a unique-pointer dereference"@,
                None,
            ),
        ),
    }
}

/// Every type resolves to its apparent type.
pub open spec fn all_types_resolve(facts: FactsView, symbols: Map<SymbolId, TypedSymbol>) -> bool {
    forall|id: CheckedTypeId| #[trigger] apparent_resolves(facts, symbols, id)
}

/// The typed facts of the symbol `name` resolves to as the first of
/// `kinds`, if the checker knows it.
fn find_known_symbol<'a>(
    typed: &'a TypedProgram,
    resolved: &Resolution,
    unit: SourceUnitId,
    scope: ScopeId,
    name: &str,
    kinds: &[SymbolKind],
) -> (r: Option<&'a TypedSymbol>)
    requires
        kind_lookups_end(resolved, unit, scope, name@, kinds@),
    ensures
        match r {
            Some(s) => known_symbol(typed.symbol_facts(), resolved, unit, scope, name@, kinds@) == Some(*s),
            None => known_symbol(typed.symbol_facts(), resolved, unit, scope, name@, kinds@) is None,
        },
{
    match find_first_kind(resolved, unit, scope, name, kinds) {
        Some(id) => typed.typed_symbol(id),
        None => None,
    }
}

/// The type of the field `name` among the fields of a record.
pub(crate) fn find_field(fields: &crate::sorted_map::SortedMap<String, CheckedTypeId>, name: &str) -> (r: Option<
    CheckedTypeId,
>)
    ensures
        r == field_from(fields.entries(), name@, 0),
{
    let ghost target = field_from(fields.entries(), name@, 0);
    let mut i: usize = 0;
    while i < fields.len()
        invariant
            i <= fields.entries().len(),
            target == field_from(fields.entries(), name@, 0),
            target == field_from(fields.entries(), name@, i as int),
        decreases fields.entries().len() - i,
    {
        if text_eq(fields.key_at(i).as_str(), name) {
            return Some(*fields.value_at(i));
        }
        i = i + 1;
    }
    None
}

/// Whether an element of `binding`, or of its field `through`, may be
/// assigned in place.
fn ensure_element_assignable(
    typed: &TypedProgram,
    resolved: &Resolution,
    unit: SourceUnitId,
    scope: ScopeId,
    binding: &str,
    through: Option<&str>,
    origin: &Option<SyntaxOrigin>,
) -> (r: Result<(), TypecheckError>)
    requires
        kind_lookups_end(resolved, unit, scope, binding@, assignable_kinds()),
        kind_lookups_end(resolved, unit, scope, binding@, container_kinds()),
        all_types_resolve(typed.facts(), typed.symbol_facts()),
    ensures
        result_view(r) == element_target_outcome(
            typed.facts(),
            typed.symbol_facts(),
            resolved,
            unit,
            scope,
            binding@,
            match through {
                Some(f) => Some(f@),
                None => None,
            },
            *origin,
        ),
{
    let ghost facts = typed.facts();
    let ghost symbols = typed.symbol_facts();
    if !binding_is_mutable_by_name(typed, resolved, unit, scope, binding) {
        let mut message = owned("cannot assign into an element of immutable binding '");
        push_text(&mut message, binding);
        push_text(&mut message, "'; declare it with 'var[mut]' to allow element assignment");
        return Err(TypecheckError::new(TypecheckErrorKind::InvalidInput, message.as_str()));
    }
    let kinds = [SymbolKind::ValueBinding, SymbolKind::Parameter];
    proof {
        assert(kinds@ =~= container_kinds());
    }
    let known = find_known_symbol(typed, resolved, unit, scope, binding, &kinds);
    let is_mutex = match known {
        Some(s) => s.is_mutex,
        None => false,
    };
    if is_mutex {
        let mut message = owned("cannot assign into an element of 'mux[T]' binding '");
        push_text(&mut message, binding);
        push_text(&mut message, "'; lock it first and assign through the guard");
        return Err(TypecheckError::new(TypecheckErrorKind::Unsupported, message.as_str()));
    }
    let declared = match known {
        Some(s) => s.declared_type,
        None => None,
    };
    let shared_loan = match declared {
        Some(d) => match typed.type_table().get(d) {
            Some(CheckedType::Borrowed { mutable, .. }) => !*mutable,
            _ => false,
        },
        None => false,
    };
    if shared_loan {
        let mut message = owned("cannot assign into an element through the shared loan '");
        push_text(&mut message, binding);
        push_text(&mut message, "'; a '[bor]' view is read-only");
        return Err(
            TypecheckError::at(
                TypecheckErrorKind::BorrowMutability,
                message.as_str(),
                crate::ids::copy_origin(origin),
            ),
        );
    }
    let declared = match declared {
        Some(d) => d,
        None => {
            let mut message = owned("indexed assignment target '");
            push_text(&mut message, binding);
            push_text(&mut message, "' does not retain a type");
            return Err(TypecheckError::new(TypecheckErrorKind::InvalidInput, message.as_str()));
        },
    };
    proof {
        assert(apparent_resolves(facts, symbols, declared));
    }
    let binding_type = match apparent_type_id(typed, declared) {
        Ok(t) => t,
        Err(e) => {
            return Err(e);
        },
    };
    let container = match through {
        None => binding_type,
        Some(field) => {
            let field_type = match typed.type_table().get(binding_type) {
                Some(CheckedType::Record { fields }) => find_field(fields, field),
                _ => {
                    let mut message = owned("indexed assignment through '.");
                    push_text(&mut message, field);
                    push_text(&mut message, "' requires a record binding");
                    return Err(TypecheckError::new(TypecheckErrorKind::InvalidInput, message.as_str()));
                },
            };
            let field_type = match field_type {
                Some(t) => t,
                None => {
                    let mut message = owned("'");
                    push_text(&mut message, binding);
                    push_text(&mut message, "' does not expose a field named '");
                    push_text(&mut message, field);
                    push_text(&mut message, "'");
                    return Err(TypecheckError::new(TypecheckErrorKind::InvalidInput, message.as_str()));
                },
            };
            proof {
                assert(apparent_resolves(facts, symbols, field_type));
            }
            match apparent_type_id(typed, field_type) {
                Ok(t) => t,
                Err(e) => {
                    return Err(e);
                },
            }
        },
    };
    let element = match typed.type_table().get(container) {
        Some(CheckedType::Array { element_type, .. }) => *element_type,
        Some(CheckedType::Vector { element_type }) => *element_type,
        Some(CheckedType::Sequence { .. }) => {
            return Err(
                TypecheckError::new(
                    TypecheckErrorKind::Unsupported,
                    "'seq[T]' is the persistent linked-list family; positional in-place writes are not part of its contract \u{2014} use 'vec[T]'",
                ),
            );
        },
        Some(CheckedType::MapOf { .. }) => {
            return Err(
                TypecheckError::new(
                    TypecheckErrorKind::Unsupported,
                    "map elements cannot be assigned; adding or replacing a key is container growth, which is not implemented",
                ),
            );
        },
        Some(CheckedType::SetOf { .. }) => {
            return Err(
                TypecheckError::new(
                    TypecheckErrorKind::Unsupported,
                    "'set[...]' is the tuple-member form, where each position has its own type; positional assignment into a set is not defined",
                ),
            );
        },
        _ => {
            let mut message = owned("indexed assignment requires an 'arr[T,N]' or 'vec[T]' binding, but '");
            push_text(&mut message, binding);
            push_text(&mut message, "' is not one");
            return Err(TypecheckError::new(TypecheckErrorKind::InvalidInput, message.as_str()));
        },
    };
    if typed.type_resolves_to_fin(element) {
        return Err(
            TypecheckError::new(
                TypecheckErrorKind::Unsupported,
                "cannot replace a 'fin' element in place; a container's 'fin' elements are finalized by a scope-exit walk, and an overwritten element's finalizer would never run \u{2014} move the value out and rebuild the container",
            ),
        );
    }
    if ownership_moves_on_transfer(typed, element) {
        return Err(
            TypecheckError::new(
                TypecheckErrorKind::Ownership,
                "cannot replace a move-only element in place; the displaced value would be dropped without a transfer",
            ),
        );
    }
    Ok(())
}

/// Decides whether `target`, seen from `scope` of `unit`, may be assigned,
/// and refuses it with the reason when not.
pub fn ensure_assignable_target(
    typed: &TypedProgram,
    resolved: &Resolution,
    unit: SourceUnitId,
    scope: ScopeId,
    target: &AssignmentTarget,
) -> (r: Result<(), TypecheckError>)
    requires
        target_lookups_end(resolved, unit, scope, *target),
        target is Element ==> all_types_resolve(typed.facts(), typed.symbol_facts()),
    ensures
        result_view(r) == assignable_target_outcome(
            typed.facts(),
            typed.symbol_facts(),
            resolved,
            unit,
            scope,
            *target,
        ),
{
    match target {
        AssignmentTarget::Name(n) => ensure_binding_reassignable(typed, resolved, unit, scope, n),
        AssignmentTarget::Field { object: None, field } => {
            let mut message = owned("nested field assignment targets like '.");
            push_text(&mut message, field);
            push_text(&mut message, "' are not supported; assign into a field of a mutable binding directly");
            Err(TypecheckError::new(TypecheckErrorKind::Unsupported, message.as_str()))
        },
        AssignmentTarget::Field { object: Some(b), field } => {
            if binding_is_mutable_by_name(typed, resolved, unit, scope, b) {
                return Ok(());
            }
            if text_eq(b, "self") {
                proof {
                    reveal_strlit("self");
                }
                let mut message = owned("cannot assign into field '");
                push_text(&mut message, field);
                push_text(
                    &mut message,
                    "' of the method receiver; receiver mutation is not part of the current V1 surface",
                );
                return Err(TypecheckError::new(TypecheckErrorKind::Unsupported, message.as_str()));
            }
            let mut message = owned("cannot assign into field '");
            push_text(&mut message, field);
            push_text(&mut message, "' of immutable binding '");
            push_text(&mut message, b);
            push_text(&mut message, "'; declare the instance with 'var[mut]' to allow field assignment");
            Err(TypecheckError::new(TypecheckErrorKind::InvalidInput, message.as_str()))
        },
        AssignmentTarget::Element { base, origin } => match base {
            ElementBase::Binding(b) => ensure_element_assignable(typed, resolved, unit, scope, b, None, origin),
            ElementBase::FieldOf(b, f) => ensure_element_assignable(
                typed,
                resolved,
                unit,
                scope,
                b,
                Some(*f),
                origin,
            ),
            ElementBase::NestedField => Err(
                TypecheckError::new(
                    TypecheckErrorKind::Unsupported,
                    "nested indexed assignment targets are not supported; index a mutable container binding, or one of its fields, directly",
                ),
            ),
            ElementBase::Other => Err(
                TypecheckError::new(
                    TypecheckErrorKind::Unsupported,
                    "nested indexed assignment targets are not supported; index a mutable container binding directly",
                ),
            ),
        },
        AssignmentTarget::Deref { pointer: None, .. } => Err(
            TypecheckError::new(
                TypecheckErrorKind::InvalidInput,
                "dereference assignment requires a pointer binding identifier",
            ),
        ),
        AssignmentTarget::Deref { pointer: Some(n), origin } => {
            match ensure_binding_reassignable(typed, resolved, unit, scope, n) {
                Ok(()) => {},
                Err(e) => {
                    return Err(e);
                },
            }
            let kinds = [SymbolKind::ValueBinding];
            proof {
                assert(kinds@ =~= pointer_kinds());
            }
            let pointee = match find_known_symbol(typed, resolved, unit, scope, n, &kinds) {
                Some(s) => match s.declared_type {
                    Some(d) => typed.type_table().get(d),
                    None => None,
                },
                None => None,
            };
            match pointee {
                Some(CheckedType::Pointer { shared, .. }) => if !*shared {
                    Ok(())
                } else {
                    Err(
                        TypecheckError::at(
                            TypecheckErrorKind::InvalidInput,
                            "cannot write through ptr[shared, T]; shared pointers are read-only",
                            crate::ids::copy_origin(origin),
                        ),
                    )
                },
                _ => Err(
                    TypecheckError::new(
                        TypecheckErrorKind::InvalidInput,
                        "dereference assignment requires a pointer binding",
                    ),
                ),
            }
        },
        AssignmentTarget::Other => Err(
            TypecheckError::new(
                TypecheckErrorKind::InvalidInput,
                "assignment targets must currently be plain identifiers, qualified identifiers, a field of a mutable record binding, or a unique-pointer dereference",
            ),
        ),
    }
}

} // verus!
