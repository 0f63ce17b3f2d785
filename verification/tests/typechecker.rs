use lib::errors::{TypecheckError, TypecheckErrorKind};
use lib::ids::SyntaxOrigin;
use lib::{TypecheckCapabilityModel, TypecheckConfig, Typechecker};

#[test]
fn typechecker_foundation_can_be_constructed() {
    let _ = Typechecker::new();
    let configured = Typechecker::with_config(TypecheckConfig {
        capability_model: TypecheckCapabilityModel::Core,
    });

    assert_eq!(
        configured.config().capability_model,
        TypecheckCapabilityModel::Core
    );
}

#[test]
fn typechecker_foundation_exposes_typecheck_error_surface() {
    let error = TypecheckError::with_origin(
        TypecheckErrorKind::Unsupported,
        "generics are not yet supported",
        SyntaxOrigin {
            file: Some("pkg/main.fol".to_string()),
            line: 3,
            column: 5,
            length: 7,
        },
    );

    assert_eq!(error.kind(), TypecheckErrorKind::Unsupported);
    assert_eq!(
        error
            .diagnostic_location()
            .expect("Typecheck error should expose its syntax origin")
            .line,
        3
    );
}

#[test]
fn default_typechecker_uses_the_std_capability_model() {
    assert_eq!(
        Typechecker::new().config().capability_model,
        TypecheckCapabilityModel::Std
    );
    assert_eq!(
        TypecheckConfig::default().capability_model,
        TypecheckCapabilityModel::Std
    );
}

#[test]
fn errors_without_origin_have_no_location() {
    let error = TypecheckError::new(TypecheckErrorKind::InvalidInput, "bad input");
    assert_eq!(error.kind(), TypecheckErrorKind::InvalidInput);
    assert_eq!(error.message(), "bad input");
    assert!(error.diagnostic_location().is_none());
}

#[test]
fn a_default_checker_uses_the_default_configuration() {
    assert_eq!(Typechecker::default().config(), TypecheckConfig::default());
    let result: lib::TypecheckResult<u8> = Err(Vec::new());
    assert!(result.is_err());
}
