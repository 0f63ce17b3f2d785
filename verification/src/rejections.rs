//! The diagnostics for values that cannot be stored, crossed or discarded
//! where they appear.
use crate::apparent::{
    apparent_outcome, apparent_resolves, cycle_error, describe_type, is_error_shell_type,
    result_view, type_at,
};
use crate::borrows::is_first_bound_guard;
use crate::errors::{TypecheckError, TypecheckErrorKind, TypecheckErrorView};
use crate::exprs::{ErrorCallMode, TypeContext, TypedExpr};
use crate::ids::{SymbolId, SyntaxOrigin, SyntaxOriginView};
use crate::model::{TypedProgram, TypedSymbol};
use crate::ownership::FactsView;
use crate::render::{acyclic, rendered};
use crate::shapes::{
    nested_fin, nested_fin_decided, reaches, type_embeds_full_channel, type_has_nested_eventual,
    type_has_nested_fin, TypeQuery,
};
use crate::types::{CheckedType, CheckedTypeId, CheckedTypeView};
use vstd::prelude::*;

verus! {

/// The view of an optional position.
pub open spec fn origin_view(origin: Option<SyntaxOrigin>) -> Option<SyntaxOriginView> {
    match origin {
        Some(o) => Some(o@),
        None => None,
    }
}

/// A diagnostic of kind `kind` with `message`, at `origin` when known.
pub open spec fn error_at(
    kind: TypecheckErrorKind,
    message: Seq<char>,
    origin: Option<SyntaxOriginView>,
) -> TypecheckErrorView {
    TypecheckErrorView { kind, message, origin, related: seq![] }
}

/// Refuses a type that embeds a full channel or eventual in an aggregate
/// or wrapper type.
pub fn reject_embedded_full_channel(
    typed: &TypedProgram,
    type_id: CheckedTypeId,
    origin: Option<SyntaxOrigin>,
) -> (r: Result<(), TypecheckError>)
    ensures
        result_view(r) == (if reaches(
            TypeQuery::FullChannel,
            typed.facts(),
            typed.symbol_facts(),
            type_id,
            true,
            Set::empty(),
        ) {
            Err(
                error_at(
                    TypecheckErrorKind::Unsupported,
                    "full chn[T] and evt[T] values cannot be embedded in aggregate or wrapper types in V3; keep them as direct routine-local bindings or named-routine parameters"@,
                    origin_view(origin),
                ),
            )
        } else {
            Ok(())
        }),
{
    if !type_embeds_full_channel(typed, type_id) {
        return Ok(());
    }
    Err(
        TypecheckError::at(
            TypecheckErrorKind::Unsupported,
            "full chn[T] and evt[T] values cannot be embedded in aggregate or wrapper types in V3; keep them as direct routine-local bindings or named-routine parameters",
            origin,
        ),
    )
}

/// Refuses storing, as `subject`, a type that buries a finalizing value
/// where no finalizer would reach it.
pub fn reject_nested_fin_storage(
    typed: &TypedProgram,
    type_id: CheckedTypeId,
    origin: Option<SyntaxOrigin>,
    subject: &str,
) -> (r: Result<(), TypecheckError>)
    requires
        nested_fin_decided(typed.facts(), typed.symbol_facts(), type_id),
        acyclic(typed.facts().types),
    ensures
        result_view(r) == (if nested_fin(typed.facts(), typed.symbol_facts(), type_id) {
            Err(
                error_at(
                    TypecheckErrorKind::Unsupported,
                    subject@ + " holds a 'fin' value buried inside '"@ + rendered(
                        typed.facts().types,
                        type_id,
                    ) + "'; a 'fin' binding, record field, or container *element* is finalized at scope exit, but reaching one nested deeper than that — inside a container's element, an entry variant, or a generic argument — would need a per-element walk the compiler cannot emit, so the finalizer would never run — hold the 'fin' value directly, or give it its own binding and transfer it with '[mov]'"@,
                    origin_view(origin),
                ),
            )
        } else {
            Ok(())
        }),
{
    if !type_has_nested_fin(typed, type_id) {
        return Ok(());
    }
    let mut message = crate::text::owned(subject);
    crate::text::push_text(&mut message, " holds a 'fin' value buried inside '");
    let name = describe_type(typed, type_id);
    crate::text::push_text(&mut message, name.as_str());
    crate::text::push_text(
        &mut message,
        "'; a 'fin' binding, record field, or container *element* is finalized at scope exit, but reaching one nested deeper than that — inside a container's element, an entry variant, or a generic argument — would need a per-element walk the compiler cannot emit, so the finalizer would never run — hold the 'fin' value directly, or give it its own binding and transfer it with '[mov]'",
    );
    Err(TypecheckError::at(TypecheckErrorKind::Unsupported, message.as_str(), origin))
}

/// Refuses, in `surface`, a value embedding an eventual in a composite
/// value.
pub fn reject_nested_eventual_value(
    typed: &TypedProgram,
    type_id: CheckedTypeId,
    origin: Option<SyntaxOrigin>,
    surface: &str,
) -> (r: Result<(), TypecheckError>)
    ensures
        match r {
            Ok(()) => true,
            Err(e) => e@ == error_at(
                TypecheckErrorKind::Ownership,
                surface@
                    + " cannot embed the internal eventual type in a composite value in V3; transfer or await the eventual directly"@,
                origin_view(origin),
            ),
        },
        r is Err <==> match type_at(typed.facts(), type_id) {
            Some(CheckedTypeView::Eventual { value_type, error_type }) => reaches(
                TypeQuery::Eventual,
                typed.facts(),
                typed.symbol_facts(),
                value_type,
                true,
                Set::empty(),
            ) || match error_type {
                Some(e) => reaches(
                    TypeQuery::Eventual,
                    typed.facts(),
                    typed.symbol_facts(),
                    e,
                    true,
                    Set::empty(),
                ),
                None => false,
            },
            _ => reaches(
                TypeQuery::Eventual,
                typed.facts(),
                typed.symbol_facts(),
                type_id,
                true,
                Set::empty(),
            ),
        },
{
    if !type_has_nested_eventual(typed, type_id) {
        return Ok(());
    }
    let mut message = crate::text::owned(surface);
    crate::text::push_text(
        &mut message,
        " cannot embed the internal eventual type in a composite value in V3; transfer or await the eventual directly",
    );
    Err(TypecheckError::at(TypecheckErrorKind::Ownership, message.as_str(), origin))
}

/// The diagnostic for `usage` taking a recoverable routine result as a
/// plain value.
pub open spec fn plain_use_error(usage: Seq<char>, origin: Option<SyntaxOriginView>) -> TypecheckErrorView {
    error_at(
        TypecheckErrorKind::InvalidInput,
        usage
            + " cannot use '/ ErrorType' routine results as plain values in V1; handle them immediately with '||' or check(...), or use err[...] when you need a storable value"@,
        origin,
    )
}

/// Refuses `usage` taking a recoverable routine result as a plain value.
pub fn reject_recoverable_plain_use(origin: Option<SyntaxOrigin>, usage: &str) -> (r: Result<
    (),
    TypecheckError,
>)
    ensures
        result_view(r) == Err::<(), TypecheckErrorView>(plain_use_error(usage@, origin_view(origin))),
{
    let mut message = crate::text::owned(usage);
    crate::text::push_text(
        &mut message,
        " cannot use '/ ErrorType' routine results as plain values in V1; handle them immediately with '||' or check(...), or use err[...] when you need a storable value",
    );
    Err(TypecheckError::at(TypecheckErrorKind::InvalidInput, message.as_str(), origin))
}

/// The expression as typed in `context`, refused for `usage` when it
/// carries a recoverable error where errors must be handled at once.
pub fn plain_value_expr(
    typed: &TypedProgram,
    context: TypeContext,
    expr: TypedExpr,
    origin: Option<SyntaxOrigin>,
    usage: &str,
) -> (r: Result<TypedExpr, TypecheckError>)
    ensures
        result_view(r) == (if expr.recoverable_effect is Some && context.error_call_mode
            == ErrorCallMode::Propagate {
            Err(plain_use_error(usage@, origin_view(origin)))
        } else {
            Ok(expr)
        }),
{
    if expr.recoverable_effect.is_some() {
        match context.error_call_mode {
            ErrorCallMode::Propagate => {
                return match reject_recoverable_plain_use(origin, usage) {
                    Ok(()) => Ok(expr),
                    Err(e) => Err(e),
                };
            },
            ErrorCallMode::Observe => {},
        }
    }
    Ok(expr)
}

/// Refuses discarding the value of a recoverable eventual type.
pub fn reject_discarded_recoverable_eventual(
    typed: &TypedProgram,
    type_id: CheckedTypeId,
    origin: Option<SyntaxOrigin>,
) -> (r: Result<(), TypecheckError>)
    ensures
        result_view(r) == (if type_at(typed.facts(), type_id) matches Some(
            CheckedTypeView::Eventual { error_type: Some(_), .. },
        ) {
            Err(
                error_at(
                    TypecheckErrorKind::InvalidInput,
                    "discarding a recoverable eventual loses its error; bind it, await it, and handle the result with '||' or check(...)"@,
                    origin_view(origin),
                ),
            )
        } else {
            Ok(())
        }),
{
    if !crate::apparent::is_recoverable_eventual_type(typed, type_id) {
        return Ok(());
    }
    Err(
        TypecheckError::at(
            TypecheckErrorKind::InvalidInput,
            "discarding a recoverable eventual loses its error; bind it, await it, and handle the result with '||' or check(...)",
            origin,
        ),
    )
}

/// Refuses crossing `boundary` while a lock bound to a guard value is held;
/// the diagnostic also points where that lock was taken.
pub fn reject_bound_guard_boundary(
    typed: &TypedProgram,
    boundary: &str,
    origin: Option<SyntaxOrigin>,
) -> (r: Result<(), TypecheckError>)
    ensures
        match r {
            Ok(()) => forall|m: SymbolId|
                #[trigger] typed.ownership().mutex_guards.contains_key(m)
                    ==> !typed.ownership().mutex_guards[m].bound,
            Err(e) => exists|m: SymbolId|
                is_first_bound_guard(typed.ownership().mutex_guards, m) && e@ == (TypecheckErrorView {
                    related: seq![
                        (typed.ownership().mutex_guards[m].origin, "mutex guard acquired here"@),
                    ],
                    ..error_at(
                        TypecheckErrorKind::Ownership,
                        "a mutex guard cannot cross "@ + boundary@
                            + "; end it ('[end]guard' or scope exit) before "@ + boundary@,
                        origin_view(origin),
                    )
                }),
        },
{
    let guard = match typed.active_bound_guard() {
        Some(g) => g,
        None => {
            return Ok(());
        },
    };
    let mut message = crate::text::owned("a mutex guard cannot cross ");
    crate::text::push_text(&mut message, boundary);
    crate::text::push_text(&mut message, "; end it ('[end]guard' or scope exit) before ");
    crate::text::push_text(&mut message, boundary);
    let error = TypecheckError::at(TypecheckErrorKind::Ownership, message.as_str(), origin);
    let acquired = guard.origin.copy();
    let r = error.with_related_origin(acquired, "mutex guard acquired here");
    proof {
        assert(r@.related =~= seq![(guard.deep_view().origin, "mutex guard acquired here"@)]);
    }
    Err(r)
}

/// Whether, in `surface`, the value `actual_expr` may stand where
/// `expected_type` is expected: a recoverable routine result cannot become
/// an error shell.
pub open spec fn shell_conversion_outcome(
    facts: FactsView,
    symbols: Map<SymbolId, TypedSymbol>,
    expected_type: CheckedTypeId,
    actual_expr: TypedExpr,
    origin: Option<SyntaxOriginView>,
    surface: Seq<char>,
) -> Result<(), TypecheckErrorView> {
    if actual_expr.recoverable_effect is None {
        Ok(())
    } else {
        match apparent_outcome(facts, symbols, expected_type) {
            Err(_) => Err(cycle_error()),
            Ok(a) => if type_at(facts, a) matches Some(CheckedTypeView::Error { .. }) {
                Err(
                    error_at(
                        TypecheckErrorKind::Unsupported,
                        surface
                            + " cannot turn a '/ ErrorType' routine result into err[...] in V1; err[...] is the storable error form, so handle the call with '||' or check(...)"@,
                        origin,
                    ),
                )
            } else {
                Ok(())
            },
        }
    }
}

/// Refuses, in `surface`, turning a recoverable routine result into an
/// error shell expected as `expected_type`.
pub fn reject_recoverable_error_shell_conversion(
    typed: &TypedProgram,
    expected_type: CheckedTypeId,
    actual_expr: &TypedExpr,
    origin: Option<SyntaxOrigin>,
    surface: &str,
) -> (r: Result<(), TypecheckError>)
    requires
        actual_expr.recoverable_effect is Some ==> apparent_resolves(
            typed.facts(),
            typed.symbol_facts(),
            expected_type,
        ),
    ensures
        result_view(r) == shell_conversion_outcome(
            typed.facts(),
            typed.symbol_facts(),
            expected_type,
            *actual_expr,
            origin_view(origin),
            surface@,
        ),
{
    if actual_expr.recoverable_effect.is_none() {
        return Ok(());
    }
    match is_error_shell_type(typed, expected_type) {
        Err(e) => {
            return Err(e);
        },
        Ok(false) => {
            return Ok(());
        },
        Ok(true) => {},
    }
    let mut message = crate::text::owned(surface);
    crate::text::push_text(
        &mut message,
        " cannot turn a '/ ErrorType' routine result into err[...] in V1; err[...] is the storable error form, so handle the call with '||' or check(...)",
    );
    Err(TypecheckError::at(TypecheckErrorKind::Unsupported, message.as_str(), origin))
}

/// The type behind one owned or borrowed wrapper of `type_id`, or
/// `type_id` itself.
pub fn owned_or_borrowed_inner(typed: &TypedProgram, type_id: CheckedTypeId) -> (r: CheckedTypeId)
    ensures
        r == match type_at(typed.facts(), type_id) {
            Some(CheckedTypeView::Owned { inner }) => inner,
            Some(CheckedTypeView::Borrowed { inner, .. }) => inner,
            _ => type_id,
        },
{
    match typed.type_table().get(type_id) {
        Some(CheckedType::Owned { inner }) => *inner,
        Some(CheckedType::Borrowed { inner, .. }) => *inner,
        _ => type_id,
    }
}

/// Whether the declared type of the binding `symbol` resolves to a type
/// whose declaration claims `fin`.
pub fn root_binding_type_claims_fin(typed: &TypedProgram, symbol: SymbolId) -> (r: bool)
    ensures
        r == match crate::shapes::declared_type_of(typed.symbol_facts(), symbol) {
            Some(t) => crate::facts::resolves_to_fin(typed.facts(), typed.symbol_facts(), t),
            None => false,
        },
{
    match typed.typed_symbol(symbol) {
        Some(s) => match s.declared_type {
            Some(t) => typed.type_resolves_to_fin(t),
            None => false,
        },
        None => false,
    }
}

} // verus!
