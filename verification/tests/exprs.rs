use lib::errors::TypecheckErrorKind;
use lib::exprs::{is_container_method, TypedExpr};
use lib::model::RecoverableCallEffect;
use lib::types::CheckedTypeId;
use lib::widths::{float_width_of, int_width_of, FloatSize, FloatWidth, IntSize, IntWidth};

#[test]
fn typed_expressions_carry_their_value_and_effect() {
    assert_eq!(TypedExpr::none().value_type, None);
    assert_eq!(TypedExpr::value(CheckedTypeId(3)).value_type, Some(CheckedTypeId(3)));
    assert_eq!(TypedExpr::maybe_value(None), TypedExpr::none());
    let effect = RecoverableCallEffect {
        error_type: CheckedTypeId(9),
    };
    let with_effect = TypedExpr::value(CheckedTypeId(3)).with_optional_effect(Some(effect));
    assert_eq!(with_effect.recoverable_effect, Some(effect));
    assert_eq!(with_effect.value_type, Some(CheckedTypeId(3)));
    assert_eq!(with_effect.with_optional_effect(None).recoverable_effect, None);
    assert!(TypedExpr::value(CheckedTypeId(1)).is_never(CheckedTypeId(1)));
    assert!(!TypedExpr::none().is_never(CheckedTypeId(1)));
}

#[test]
fn a_required_value_must_be_present() {
    assert_eq!(
        TypedExpr::value(CheckedTypeId(2)).required_value("needs a value").unwrap(),
        CheckedTypeId(2)
    );
    let error = TypedExpr::none().required_value("needs a value").unwrap_err();
    assert_eq!(error.kind(), TypecheckErrorKind::InvalidInput);
    assert_eq!(error.message(), "needs a value");
}

#[test]
fn only_push_is_a_container_method() {
    assert!(is_container_method("push"));
    assert!(!is_container_method("pop"));
    assert!(!is_container_method("pushed"));
    assert!(!is_container_method(""));
}

#[test]
fn parsed_widths_map_to_canonical_widths() {
    assert_eq!(int_width_of(None, true), IntWidth::I64);
    assert_eq!(int_width_of(None, false), IntWidth::I64);
    assert_eq!(int_width_of(Some(IntSize::I8), true), IntWidth::I8);
    assert_eq!(int_width_of(Some(IntSize::I8), false), IntWidth::U8);
    assert_eq!(int_width_of(Some(IntSize::Arch), false), IntWidth::UArch);
    assert_eq!(float_width_of(None), FloatWidth::F64);
    assert_eq!(float_width_of(Some(FloatSize::F32)), FloatWidth::F32);
    assert_eq!(int_width_of(None, true).fol_spelling(), "int");
}
