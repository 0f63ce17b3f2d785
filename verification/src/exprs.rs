//! What typing an expression yields, and the container methods the checker
//! resolves itself.
use crate::errors::{TypecheckError, TypecheckErrorKind, TypecheckErrorView};
use crate::ids::{ScopeId, SourceUnitId, SyntaxNodeId};
use crate::model::RecoverableCallEffect;
use crate::types::CheckedTypeId;
use vstd::prelude::*;

verus! {

/// How a call of a routine with a recoverable error may be used.
#[derive(Clone, Copy, Debug, PartialEq, Eq, Structural)]
pub enum ErrorCallMode {
    /// Its error must be handled at once; the result is no plain value.
    Propagate,
    /// The call's outcome is observed as a value.
    Observe,
}

/// Where an expression is typed: its file and scope, the enclosing
/// routine's result types, and the rules in force there.
#[derive(Clone, Copy, Debug, PartialEq, Eq, Structural)]
pub struct TypeContext {
    pub source_unit_id: SourceUnitId,
    pub scope_id: ScopeId,
    pub routine_return_type: Option<CheckedTypeId>,
    pub routine_error_type: Option<CheckedTypeId>,
    pub error_call_mode: ErrorCallMode,
    /// The direct call whose arguments cross a spawned or async task
    /// boundary.
    pub processor_task_call: Option<SyntaxNodeId>,
    /// Whether a mutex handle may pass, from one mutex parameter to another.
    pub allow_mutex_handle: bool,
    /// The body scope of the innermost repeating loop.
    pub repeating_loop_scope: Option<ScopeId>,
    /// Whether a deferred block is being typed.
    pub inside_deferred_block: bool,
    /// Whether an error-only deferred block is being typed.
    pub inside_error_deferred_block: bool,
    /// Whether the receiver of a field access is being typed.
    pub field_projection_root: bool,
}

/// The same context, observing recoverable call outcomes as values.
pub fn observe_context(context: TypeContext) -> (r: TypeContext)
    ensures
        r == (TypeContext { error_call_mode: ErrorCallMode::Observe, ..context }),
{
    TypeContext { error_call_mode: ErrorCallMode::Observe, ..context }
}

/// The type an expression produces, if any, and the recoverable error it
/// may propagate.
#[derive(Clone, Copy, Debug, PartialEq, Eq, Structural)]
pub struct TypedExpr {
    pub value_type: Option<CheckedTypeId>,
    pub recoverable_effect: Option<RecoverableCallEffect>,
}

impl TypedExpr {
    /// An expression that produces no value.
    pub fn none() -> (r: Self)
        ensures
            r == (TypedExpr { value_type: None, recoverable_effect: None }),
    {
        TypedExpr { value_type: None, recoverable_effect: None }
    }

    /// An expression that produces a value of type `value_type`.
    pub fn value(value_type: CheckedTypeId) -> (r: Self)
        ensures
            r == (TypedExpr { value_type: Some(value_type), recoverable_effect: None }),
    {
        TypedExpr { value_type: Some(value_type), recoverable_effect: None }
    }

    /// An expression that produces a value of type `value_type` when there
    /// is one.
    pub fn maybe_value(value_type: Option<CheckedTypeId>) -> (r: Self)
        ensures
            r == (TypedExpr { value_type, recoverable_effect: None }),
    {
        TypedExpr { value_type, recoverable_effect: None }
    }

    /// The same expression with its recoverable effect replaced by `effect`.
    pub fn with_optional_effect(self, effect: Option<RecoverableCallEffect>) -> (r: Self)
        ensures
            r == (TypedExpr { recoverable_effect: effect, ..self }),
    {
        let mut out = self;
        out.recoverable_effect = effect;
        out
    }

    /// Whether the expression produces a value of type `never`.
    pub fn is_never(self, never: CheckedTypeId) -> (r: bool)
        ensures
            r == (self.value_type == Some(never)),
    {
        match self.value_type {
            Some(t) => t.0 == never.0,
            None => false,
        }
    }

    /// The type of the value the expression produces, or an invalid-input
    /// diagnostic with `message` when it produces none.
    pub fn required_value(self, message: &str) -> (r: Result<CheckedTypeId, TypecheckError>)
        ensures
            match r {
                Ok(t) => self.value_type == Some(t),
                Err(e) => self.value_type is None && e@ == (TypecheckErrorView {
                    kind: TypecheckErrorKind::InvalidInput,
                    message: message@,
                    origin: None,
                    related: seq![],
                }),
            },
    {
        match self.value_type {
            Some(t) => Ok(t),
            None => Err(TypecheckError::new(TypecheckErrorKind::InvalidInput, message)),
        }
    }
}

/// Whether `method` names a method the checker resolves on container
/// receivers itself.
pub fn is_container_method(method: &str) -> (r: bool)
    ensures
        r == (method@ == "push"@),
{
    let push = crate::text::owned("push");
    let name = crate::text::owned(method);
    crate::text::str_eq(&name, &push)
}

} // verus!
