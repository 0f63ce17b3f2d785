//! Typing a binary operator applied to two values: arithmetic, string
//! concatenation, comparisons and boolean connectives, decided from the
//! apparent types of the operands.
use crate::apparent::{
    apparent_outcome, apparent_resolves, apparent_type_id, cycle_error, describe_type,
    equality_type, is_equality_type, is_ordered_type, merge_recoverable_effects, merged_effects,
    mixed_effects_error, ordered_type, result_view, type_at,
};
use crate::errors::{TypecheckError, TypecheckErrorKind, TypecheckErrorView};
use crate::exprs::{ErrorCallMode, TypeContext, TypedExpr};
use crate::ids::{SyntaxOrigin, SyntaxOriginView};
use crate::model::{RecoverableCallEffect, TypedProgram};
use crate::ownership::FactsView;
use crate::rejections::{error_at, origin_view, plain_use_error, plain_value_expr};
use crate::render::{acyclic, rendered};
use crate::text::{owned, push_text};
use crate::types::{intern_spec, BuiltinType, CheckedType, CheckedTypeId, CheckedTypeView};
use crate::widths::{FloatWidth, IntWidth};
use vstd::prelude::*;

verus! {

/// The binary operators typed from the values of both operands.
#[derive(Clone, Copy, Debug, PartialEq, Eq, Structural)]
pub enum BinaryOperator {
    Add,
    Sub,
    Mul,
    Div,
    Mod,
    Pow,
    Eq,
    Ne,
    Lt,
    Le,
    Gt,
    Ge,
    And,
    Or,
    Xor,
    In,
    Has,
    Is,
}

/// How an operator is named in a diagnostic.
pub open spec fn operator_name(op: BinaryOperator) -> Seq<char> {
    match op {
        BinaryOperator::Add => "Add"@,
        BinaryOperator::Sub => "Sub"@,
        BinaryOperator::Mul => "Mul"@,
        BinaryOperator::Div => "Div"@,
        BinaryOperator::Mod => "Mod"@,
        BinaryOperator::Pow => "Pow"@,
        BinaryOperator::Eq => "Eq"@,
        BinaryOperator::Ne => "Ne"@,
        BinaryOperator::Lt => "Lt"@,
        BinaryOperator::Le => "Le"@,
        BinaryOperator::Gt => "Gt"@,
        BinaryOperator::Ge => "Ge"@,
        BinaryOperator::And => "And"@,
        BinaryOperator::Or => "Or"@,
        BinaryOperator::Xor => "Xor"@,
        BinaryOperator::In => "In"@,
        BinaryOperator::Has => "Has"@,
        BinaryOperator::Is => "Is"@,
    }
}

/// How an operator is named in a diagnostic.
fn operator_text(op: BinaryOperator) -> (r: &'static str)
    ensures
        r@ == operator_name(op),
{
    match op {
        BinaryOperator::Add => "Add",
        BinaryOperator::Sub => "Sub",
        BinaryOperator::Mul => "Mul",
        BinaryOperator::Div => "Div",
        BinaryOperator::Mod => "Mod",
        BinaryOperator::Pow => "Pow",
        BinaryOperator::Eq => "Eq",
        BinaryOperator::Ne => "Ne",
        BinaryOperator::Lt => "Lt",
        BinaryOperator::Le => "Le",
        BinaryOperator::Gt => "Gt",
        BinaryOperator::Ge => "Ge",
        BinaryOperator::And => "And",
        BinaryOperator::Or => "Or",
        BinaryOperator::Xor => "Xor",
        BinaryOperator::In => "In",
        BinaryOperator::Has => "Has",
        BinaryOperator::Is => "Is",
    }
}

/// Whether type `id` is an integer type.
pub open spec fn is_int(facts: FactsView, id: CheckedTypeId) -> bool {
    type_at(facts, id) matches Some(CheckedTypeView::Builtin(BuiltinType::Int(_)))
}

/// Whether type `id` is a floating-point type.
pub open spec fn is_float(facts: FactsView, id: CheckedTypeId) -> bool {
    type_at(facts, id) matches Some(CheckedTypeView::Builtin(BuiltinType::Float(_)))
}

/// Whether type `id` is the string type.
pub open spec fn is_str(facts: FactsView, id: CheckedTypeId) -> bool {
    type_at(facts, id) == Some(CheckedTypeView::Builtin(BuiltinType::Str))
}

/// Whether type `id` is the boolean type.
pub open spec fn is_bool(facts: FactsView, id: CheckedTypeId) -> bool {
    type_at(facts, id) == Some(CheckedTypeView::Builtin(BuiltinType::Bool))
}

/// The type a value operator gives for operands of apparent types `left`
/// and `right`, or `None` when it does not apply to them: arithmetic on two
/// integers gives `int` and on two floats `flt`, `+` on two strings gives
/// `str`; an equality test on equal types that support equality, an order
/// test on equal ordered types, and a boolean connective on two `bol`s give
/// `bol`.
pub open spec fn operator_result(
    facts: FactsView,
    op: BinaryOperator,
    left: CheckedTypeId,
    right: CheckedTypeId,
) -> Option<CheckedTypeView> {
    let int_shape = CheckedTypeView::Builtin(BuiltinType::Int(IntWidth::DEFAULT));
    let float_shape = CheckedTypeView::Builtin(BuiltinType::Float(FloatWidth::DEFAULT));
    let boolean = CheckedTypeView::Builtin(BuiltinType::Bool);
    match op {
        BinaryOperator::Add => {
            if is_int(facts, left) && is_int(facts, right) {
                Some(int_shape)
            } else if is_float(facts, left) && is_float(facts, right) {
                Some(float_shape)
            } else if is_str(facts, left) && is_str(facts, right) {
                Some(CheckedTypeView::Builtin(BuiltinType::Str))
            } else {
                None
            }
        },
        BinaryOperator::Sub | BinaryOperator::Mul | BinaryOperator::Div | BinaryOperator::Mod
        | BinaryOperator::Pow => {
            if is_int(facts, left) && is_int(facts, right) {
                Some(int_shape)
            } else if is_float(facts, left) && is_float(facts, right) {
                Some(float_shape)
            } else {
                None
            }
        },
        BinaryOperator::Eq | BinaryOperator::Ne => {
            if left == right && equality_type(facts, left) {
                Some(boolean)
            } else {
                None
            }
        },
        BinaryOperator::Lt | BinaryOperator::Le | BinaryOperator::Gt | BinaryOperator::Ge => {
            if left == right && ordered_type(facts, left) {
                Some(boolean)
            } else {
                None
            }
        },
        BinaryOperator::And | BinaryOperator::Or | BinaryOperator::Xor => {
            if is_bool(facts, left) && is_bool(facts, right) {
                Some(boolean)
            } else {
                None
            }
        },
        _ => None,
    }
}

/// The diagnostic for an operator that does not apply to operands of types
/// `left` and `right`.
pub open spec fn invalid_operator_error(
    facts: FactsView,
    op: BinaryOperator,
    left: CheckedTypeId,
    right: CheckedTypeId,
) -> TypecheckErrorView {
    TypecheckErrorView {
        kind: TypecheckErrorKind::InvalidInput,
        message: "binary operator '"@ + operator_name(op) + "' is not valid for '"@ + rendered(
            facts.types,
            left,
        ) + "' and '"@ + rendered(facts.types, right) + "'"@,
        origin: None,
        related: seq![],
    }
}

/// The first of two optional positions that is known.
pub open spec fn first_known(a: Option<SyntaxOriginView>, b: Option<SyntaxOriginView>) -> Option<
    SyntaxOriginView,
> {
    match a {
        Some(x) => Some(x),
        None => b,
    }
}

/// What applying `op` to the typed operands `left` (written at
/// `left_origin`) and `right` (at `right_origin`) comes to: the type of the
/// result and the recoverable error it may propagate, or the first
/// diagnostic. Neither operand may be a recoverable result used as a plain
/// value; both must have types; their apparent types decide; their
/// recoverable errors must agree. Membership and type tests are refused as
/// not yet supported.
pub open spec fn value_binary_outcome(
    facts: FactsView,
    symbols: Map<crate::ids::SymbolId, crate::model::TypedSymbol>,
    context: TypeContext,
    op: BinaryOperator,
    left: TypedExpr,
    right: TypedExpr,
    left_origin: Option<SyntaxOriginView>,
    right_origin: Option<SyntaxOriginView>,
) -> Result<(CheckedTypeView, Option<RecoverableCallEffect>), TypecheckErrorView> {
    let usage = "plain use of an errorful expression"@;
    let propagate = context.error_call_mode == ErrorCallMode::Propagate;
    if left.recoverable_effect is Some && propagate {
        Err(plain_use_error(usage, left_origin))
    } else if right.recoverable_effect is Some && propagate {
        Err(plain_use_error(usage, right_origin))
    } else if left.value_type is None {
        Err(
            TypecheckErrorView {
                kind: TypecheckErrorKind::InvalidInput,
                message: "binary operator left operand does not have a type"@,
                origin: None,
                related: seq![],
            },
        )
    } else if right.value_type is None {
        Err(
            TypecheckErrorView {
                kind: TypecheckErrorKind::InvalidInput,
                message: "binary operator right operand does not have a type"@,
                origin: None,
                related: seq![],
            },
        )
    } else {
        let lt = left.value_type->0;
        let rt = right.value_type->0;
        match (apparent_outcome(facts, symbols, lt), apparent_outcome(facts, symbols, rt)) {
            (Ok(la), Ok(ra)) => match merged_effects(
                seq![left.recoverable_effect, right.recoverable_effect],
                2,
            ) {
                Err(pair) => Err(
                    mixed_effects_error(
                        facts,
                        "binary expression"@,
                        pair.0,
                        pair.1,
                        first_known(left_origin, right_origin),
                    ),
                ),
                Ok(merged) => match op {
                    BinaryOperator::In | BinaryOperator::Has => Err(
                        error_at(
                            TypecheckErrorKind::Unsupported,
                            "membership operators 'in' and 'has' are not yet supported"@,
                            first_known(left_origin, right_origin),
                        ),
                    ),
                    BinaryOperator::Is => Err(
                        error_at(
                            TypecheckErrorKind::Unsupported,
                            "type testing operator 'is' is not yet supported"@,
                            first_known(left_origin, right_origin),
                        ),
                    ),
                    _ => match operator_result(facts, op, la, ra) {
                        Some(shape) => Ok((shape, merged)),
                        None => Err(invalid_operator_error(facts, op, lt, rt)),
                    },
                },
            },
            _ => Err(cycle_error()),
        }
    }
}

/// The first of two optional positions that is known.
fn first_known_origin(a: &Option<SyntaxOrigin>, b: &Option<SyntaxOrigin>) -> (r: Option<SyntaxOrigin>)
    ensures
        origin_view(r) == first_known(origin_view(*a), origin_view(*b)),
{
    match a {
        Some(x) => Some(x.copy()),
        None => crate::ids::copy_origin(b),
    }
}

/// Types `op` applied to the typed operands `left`, written at
/// `left_origin`, and `right`, written at `right_origin`. The result type
/// is interned.
pub fn type_value_binary_op(
    typed: &mut TypedProgram,
    context: TypeContext,
    op: BinaryOperator,
    left: TypedExpr,
    right: TypedExpr,
    left_origin: Option<SyntaxOrigin>,
    right_origin: Option<SyntaxOrigin>,
) -> (r: Result<TypedExpr, TypecheckError>)
    requires
        acyclic(old(typed).facts().types),
        left.value_type matches Some(t) ==> apparent_resolves(
            old(typed).facts(),
            old(typed).symbol_facts(),
            t,
        ),
        right.value_type matches Some(t) ==> apparent_resolves(
            old(typed).facts(),
            old(typed).symbol_facts(),
            t,
        ),
    ensures
        final(typed).ownership() == old(typed).ownership(),
        final(typed).symbol_facts() == old(typed).symbol_facts(),
        match value_binary_outcome(
            old(typed).facts(),
            old(typed).symbol_facts(),
            context,
            op,
            left,
            right,
            origin_view(left_origin),
            origin_view(right_origin),
        ) {
            Err(e) => result_view(r) == Err::<TypedExpr, TypecheckErrorView>(e) && final(typed).facts()
                == old(typed).facts(),
            Ok((shape, effect)) => {
                let (types, id) = intern_spec(old(typed).facts().types, shape);
                &&& r matches Ok(t) && t.value_type == Some(CheckedTypeId(id as usize))
                    && t.recoverable_effect == effect
                &&& final(typed).facts() == (FactsView { types, ..old(typed).facts() })
            },
        },
{
    let usage = "plain use of an errorful expression";
    let left = match plain_value_expr(typed, context, left, crate::ids::copy_origin(&left_origin), usage) {
        Ok(e) => e,
        Err(e) => {
            return Err(e);
        },
    };
    let right = match plain_value_expr(
        typed,
        context,
        right,
        crate::ids::copy_origin(&right_origin),
        usage,
    ) {
        Ok(e) => e,
        Err(e) => {
            return Err(e);
        },
    };
    let left_type = match left.required_value("binary operator left operand does not have a type") {
        Ok(t) => t,
        Err(e) => {
            return Err(e);
        },
    };
    let right_type = match right.required_value("binary operator right operand does not have a type") {
        Ok(t) => t,
        Err(e) => {
            return Err(e);
        },
    };
    let left_apparent = match apparent_type_id(typed, left_type) {
        Ok(t) => t,
        Err(e) => {
            return Err(e);
        },
    };
    let right_apparent = match apparent_type_id(typed, right_type) {
        Ok(t) => t,
        Err(e) => {
            return Err(e);
        },
    };
    let effects = vec![left.recoverable_effect, right.recoverable_effect];
    proof {
        assert(effects@ =~= seq![left.recoverable_effect, right.recoverable_effect]);
    }
    let merged = match merge_recoverable_effects(
        typed,
        first_known_origin(&left_origin, &right_origin),
        "binary expression",
        &effects,
    ) {
        Ok(m) => m,
        Err(e) => {
            return Err(e);
        },
    };
    let origin = first_known_origin(&left_origin, &right_origin);
    let shape = match op {
        BinaryOperator::In | BinaryOperator::Has => {
            return Err(
                TypecheckError::at(
                    TypecheckErrorKind::Unsupported,
                    "membership operators 'in' and 'has' are not yet supported",
                    origin,
                ),
            );
        },
        BinaryOperator::Is => {
            return Err(
                TypecheckError::at(
                    TypecheckErrorKind::Unsupported,
                    "type testing operator 'is' is not yet supported",
                    origin,
                ),
            );
        },
        _ => applied_shape(typed, op, left_apparent, right_apparent),
    };
    match shape {
        Some(ty) => {
            let id = typed.intern_type(ty);
            Ok(TypedExpr { value_type: Some(id), recoverable_effect: merged })
        },
        None => {
            let mut message = owned("binary operator '");
            push_text(&mut message, operator_text(op));
            push_text(&mut message, "' is not valid for '");
            let left_text = describe_type(typed, left_type);
            push_text(&mut message, left_text.as_str());
            push_text(&mut message, "' and '");
            let right_text = describe_type(typed, right_type);
            push_text(&mut message, right_text.as_str());
            push_text(&mut message, "'");
            Err(TypecheckError::new(TypecheckErrorKind::InvalidInput, message.as_str()))
        },
    }
}

/// The builtin type of shape `b`, by kind alone.
fn builtin_kind(typed: &TypedProgram, id: CheckedTypeId) -> (r: Option<BuiltinType>)
    ensures
        match type_at(typed.facts(), id) {
            Some(CheckedTypeView::Builtin(b)) => r == Some(b),
            _ => r is None,
        },
{
    match typed.type_table().get(id) {
        Some(CheckedType::Builtin(b)) => Some(*b),
        _ => None,
    }
}

/// The type a value operator gives for operands of apparent types `left`
/// and `right`, as a type to intern, or `None` when it does not apply.
fn applied_shape(typed: &TypedProgram, op: BinaryOperator, left: CheckedTypeId, right: CheckedTypeId) -> (r:
    Option<CheckedType>)
    ensures
        match r {
            Some(t) => operator_result(typed.facts(), op, left, right) == Some(t@),
            None => operator_result(typed.facts(), op, left, right) is None,
        },
{
    let l = builtin_kind(typed, left);
    let r = builtin_kind(typed, right);
    let both_int = match (l, r) {
        (Some(BuiltinType::Int(_)), Some(BuiltinType::Int(_))) => true,
        _ => false,
    };
    let both_float = match (l, r) {
        (Some(BuiltinType::Float(_)), Some(BuiltinType::Float(_))) => true,
        _ => false,
    };
    let both_str = match (l, r) {
        (Some(BuiltinType::Str), Some(BuiltinType::Str)) => true,
        _ => false,
    };
    let both_bool = match (l, r) {
        (Some(BuiltinType::Bool), Some(BuiltinType::Bool)) => true,
        _ => false,
    };
    match op {
        BinaryOperator::Add => {
            if both_int {
                Some(CheckedType::Builtin(BuiltinType::Int(IntWidth::DEFAULT)))
            } else if both_float {
                Some(CheckedType::Builtin(BuiltinType::Float(FloatWidth::DEFAULT)))
            } else if both_str {
                Some(CheckedType::Builtin(BuiltinType::Str))
            } else {
                None
            }
        },
        BinaryOperator::Sub | BinaryOperator::Mul | BinaryOperator::Div | BinaryOperator::Mod
        | BinaryOperator::Pow => {
            if both_int {
                Some(CheckedType::Builtin(BuiltinType::Int(IntWidth::DEFAULT)))
            } else if both_float {
                Some(CheckedType::Builtin(BuiltinType::Float(FloatWidth::DEFAULT)))
            } else {
                None
            }
        },
        BinaryOperator::Eq | BinaryOperator::Ne => {
            if left.0 == right.0 && is_equality_type(typed, left) {
                Some(CheckedType::Builtin(BuiltinType::Bool))
            } else {
                None
            }
        },
        BinaryOperator::Lt | BinaryOperator::Le | BinaryOperator::Gt | BinaryOperator::Ge => {
            if left.0 == right.0 && is_ordered_type(typed, left) {
                Some(CheckedType::Builtin(BuiltinType::Bool))
            } else {
                None
            }
        },
        BinaryOperator::And | BinaryOperator::Or | BinaryOperator::Xor => {
            if both_bool {
                Some(CheckedType::Builtin(BuiltinType::Bool))
            } else {
                None
            }
        },
        _ => None,
    }
}

/// Whether `op` tests equality or order or connects booleans.
pub open spec fn gives_bool(op: BinaryOperator) -> bool {
    match op {
        BinaryOperator::Eq | BinaryOperator::Ne | BinaryOperator::Lt | BinaryOperator::Le
        | BinaryOperator::Gt | BinaryOperator::Ge | BinaryOperator::And | BinaryOperator::Or
        | BinaryOperator::Xor => true,
        _ => false,
    }
}

/// Comparisons and boolean connectives give `bol` exactly when both
/// operands have the same apparent type and it supports equality (for `==`
/// and `!=`) or is ordered (for the order tests), or both are `bol` (for
/// `and`, `or`, `xor`); otherwise the operator is refused as invalid input,
/// naming the operator and both operand types.
pub proof fn law_comparisons_give_bool(
    facts: FactsView,
    symbols: Map<crate::ids::SymbolId, crate::model::TypedSymbol>,
    context: TypeContext,
    op: BinaryOperator,
    left: TypedExpr,
    right: TypedExpr,
    left_origin: Option<SyntaxOriginView>,
    right_origin: Option<SyntaxOriginView>,
    lt: CheckedTypeId,
    rt: CheckedTypeId,
    la: CheckedTypeId,
    ra: CheckedTypeId,
)
    requires
        gives_bool(op),
        left.value_type == Some(lt),
        right.value_type == Some(rt),
        left.recoverable_effect is None,
        right.recoverable_effect is None,
        apparent_outcome(facts, symbols, lt) == Ok::<CheckedTypeId, ()>(la),
        apparent_outcome(facts, symbols, rt) == Ok::<CheckedTypeId, ()>(ra),
    ensures
        ({
            let fits = match op {
                BinaryOperator::Eq | BinaryOperator::Ne => la == ra && equality_type(facts, la),
                BinaryOperator::And | BinaryOperator::Or | BinaryOperator::Xor => is_bool(facts, la)
                    && is_bool(facts, ra),
                _ => la == ra && ordered_type(facts, la),
            };
            let outcome = value_binary_outcome(
                facts,
                symbols,
                context,
                op,
                left,
                right,
                left_origin,
                right_origin,
            );
            &&& fits ==> outcome == Ok::<
                (CheckedTypeView, Option<RecoverableCallEffect>),
                TypecheckErrorView,
            >((CheckedTypeView::Builtin(BuiltinType::Bool), None))
            &&& !fits ==> outcome == Err::<
                (CheckedTypeView, Option<RecoverableCallEffect>),
                TypecheckErrorView,
            >(invalid_operator_error(facts, op, lt, rt))
            &&& !fits ==> outcome->Err_0.kind == TypecheckErrorKind::InvalidInput
        }),
{
    reveal_with_fuel(merged_effects, 3);
}

/// Arithmetic on two integers gives the default `int`, and on two
/// floating-point values the default `flt`, whatever widths the operands
/// have; `+` on two strings gives `str`; an integer and a floating-point
/// value do not mix.
pub proof fn law_arithmetic_keeps_the_number_kind(
    facts: FactsView,
    symbols: Map<crate::ids::SymbolId, crate::model::TypedSymbol>,
    context: TypeContext,
    op: BinaryOperator,
    left: TypedExpr,
    right: TypedExpr,
    left_origin: Option<SyntaxOriginView>,
    right_origin: Option<SyntaxOriginView>,
    lt: CheckedTypeId,
    rt: CheckedTypeId,
    la: CheckedTypeId,
    ra: CheckedTypeId,
)
    requires
        op == BinaryOperator::Add || op == BinaryOperator::Sub || op == BinaryOperator::Mul || op
            == BinaryOperator::Div || op == BinaryOperator::Mod || op == BinaryOperator::Pow,
        left.value_type == Some(lt),
        right.value_type == Some(rt),
        left.recoverable_effect is None,
        right.recoverable_effect is None,
        apparent_outcome(facts, symbols, lt) == Ok::<CheckedTypeId, ()>(la),
        apparent_outcome(facts, symbols, rt) == Ok::<CheckedTypeId, ()>(ra),
    ensures
        ({
            let outcome = value_binary_outcome(
                facts,
                symbols,
                context,
                op,
                left,
                right,
                left_origin,
                right_origin,
            );
            &&& (exists|wl: IntWidth, wr: IntWidth|
                type_at(facts, la) == Some(CheckedTypeView::Builtin(BuiltinType::Int(wl))) && type_at(facts, ra)
                    == Some(CheckedTypeView::Builtin(BuiltinType::Int(wr)))) ==> outcome == Ok::<
                (CheckedTypeView, Option<RecoverableCallEffect>),
                TypecheckErrorView,
            >((CheckedTypeView::Builtin(BuiltinType::Int(IntWidth::DEFAULT)), None))
            &&& (exists|wl: FloatWidth, wr: FloatWidth|
                type_at(facts, la) == Some(CheckedTypeView::Builtin(BuiltinType::Float(wl))) && type_at(facts, ra)
                    == Some(CheckedTypeView::Builtin(BuiltinType::Float(wr)))) ==> outcome == Ok::<
                (CheckedTypeView, Option<RecoverableCallEffect>),
                TypecheckErrorView,
            >((CheckedTypeView::Builtin(BuiltinType::Float(FloatWidth::DEFAULT)), None))
            &&& (op == BinaryOperator::Add && type_at(facts, la) == Some(CheckedTypeView::Builtin(BuiltinType::Str))
                && type_at(facts, ra) == Some(CheckedTypeView::Builtin(BuiltinType::Str))) ==> outcome == Ok::<
                (CheckedTypeView, Option<RecoverableCallEffect>),
                TypecheckErrorView,
            >((CheckedTypeView::Builtin(BuiltinType::Str), None))
            &&& (exists|wl: IntWidth, wr: FloatWidth|
                type_at(facts, la) == Some(CheckedTypeView::Builtin(BuiltinType::Int(wl))) && type_at(facts, ra)
                    == Some(CheckedTypeView::Builtin(BuiltinType::Float(wr)))) ==> outcome == Err::<
                (CheckedTypeView, Option<RecoverableCallEffect>),
                TypecheckErrorView,
            >(invalid_operator_error(facts, op, lt, rt))
            &&& (exists|wl: FloatWidth, wr: IntWidth|
                type_at(facts, la) == Some(CheckedTypeView::Builtin(BuiltinType::Float(wl))) && type_at(facts, ra)
                    == Some(CheckedTypeView::Builtin(BuiltinType::Int(wr)))) ==> outcome == Err::<
                (CheckedTypeView, Option<RecoverableCallEffect>),
                TypecheckErrorView,
            >(invalid_operator_error(facts, op, lt, rt))
        }),
{
    reveal_with_fuel(merged_effects, 3);
}

} // verus!
