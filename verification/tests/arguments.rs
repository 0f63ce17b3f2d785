use lib::arguments::{bind_call_arguments, BoundCallArg, CallArgument};
use lib::ids::{SyntaxNodeId, SyntaxOrigin};
use lib::sorted_map::SortedMap;
use lib::types::{CheckedTypeId, RoutineType};
use lib::TypecheckErrorKind;

fn signature(names: &[&str], defaults: &[bool], variadic_index: Option<usize>) -> RoutineType {
    RoutineType {
        generic_params: Vec::new(),
        generic_constraints: SortedMap::new(),
        param_names: names.iter().map(|n| n.to_string()).collect(),
        param_defaults: defaults
            .iter()
            .enumerate()
            .map(|(i, d)| if *d { Some(SyntaxNodeId(100 + i)) } else { None })
            .collect(),
        variadic_index,
        mutex_params: SortedMap::new(),
        params: defaults.iter().map(|_| CheckedTypeId(1)).collect(),
        return_type: None,
        error_type: None,
        env_lifetime: false,
    }
}

fn named(name: &str) -> CallArgument {
    CallArgument::Named(name.to_string())
}

fn at() -> SyntaxOrigin {
    SyntaxOrigin { file: Some("main.fol".to_string()), line: 4, column: 9, length: 6 }
}

#[test]
fn positional_arguments_bind_parameters_in_order() {
    let sig = signature(&["a", "b"], &[false, false], None);
    let args = vec![CallArgument::Positional, CallArgument::Positional];
    let bound = bind_call_arguments(&sig, &args, "f", None, false, false).unwrap();
    assert_eq!(bound, vec![BoundCallArg::Explicit(0), BoundCallArg::Explicit(1)]);
}

#[test]
fn left_out_parameters_take_their_defaults() {
    let sig = signature(&["a", "b", "c"], &[false, true, true], None);
    let args = vec![CallArgument::Positional];
    let bound = bind_call_arguments(&sig, &args, "f", None, false, true).unwrap();
    assert_eq!(
        bound,
        vec![BoundCallArg::Explicit(0), BoundCallArg::Default, BoundCallArg::Default]
    );
}

#[test]
fn a_wrong_count_without_defaults_is_an_arity_error() {
    let sig = signature(&["a", "b"], &[false, false], None);
    let args = vec![CallArgument::Positional];
    let error = bind_call_arguments(&sig, &args, "pair", Some(at()), false, false).unwrap_err();
    assert_eq!(error.kind(), TypecheckErrorKind::InvalidInput);
    assert_eq!(error.message(), "call to 'pair' expects 2 args but got 1");
    assert_eq!(error.diagnostic_location(), Some(&at()));
}

#[test]
fn leaving_out_a_parameter_without_default_is_an_arity_error() {
    let sig = signature(&["a", "b"], &[false, false], None);
    let args = vec![CallArgument::Positional];
    let error = bind_call_arguments(&sig, &args, "pair", None, false, true).unwrap_err();
    assert_eq!(error.message(), "call to 'pair' expects 2 args but got 1");
    let origin = error.diagnostic_location().unwrap();
    assert_eq!((origin.line, origin.column, origin.length), (1, 1, 4));
}

#[test]
fn too_many_positional_arguments_are_an_arity_error() {
    let sig = signature(&["a"], &[true], None);
    let args = vec![CallArgument::Positional, CallArgument::Positional];
    let error = bind_call_arguments(&sig, &args, "one", None, false, true).unwrap_err();
    assert_eq!(error.message(), "call to 'one' expects 1 args but got 2");
}

#[test]
fn named_arguments_bind_by_name() {
    let sig = signature(&["x", "y", "z"], &[false, false, true], None);
    let args = vec![CallArgument::Positional, named("z"), named("y")];
    let bound = bind_call_arguments(&sig, &args, "f", None, true, true).unwrap();
    assert_eq!(
        bound,
        vec![BoundCallArg::Explicit(0), BoundCallArg::Explicit(2), BoundCallArg::Explicit(1)]
    );
}

#[test]
fn named_arguments_may_be_refused() {
    let sig = signature(&["x"], &[false], None);
    let args = vec![named("x")];
    let error = bind_call_arguments(&sig, &args, "f", None, false, false).unwrap_err();
    assert_eq!(error.message(), "named arguments are not supported for call to 'f'");
    assert_eq!(error.diagnostic_location().unwrap().length, 1);
}

#[test]
fn an_unknown_parameter_name_is_refused() {
    let sig = signature(&["x"], &[false], None);
    let args = vec![named("width")];
    let error = bind_call_arguments(&sig, &args, "f", None, true, false).unwrap_err();
    assert_eq!(error.message(), "call to 'f' does not have a parameter named 'width'");
    assert_eq!(error.diagnostic_location().unwrap().length, 5);
}

#[test]
fn a_parameter_supplied_twice_is_refused() {
    let sig = signature(&["x", "y"], &[false, false], None);
    let args = vec![CallArgument::Positional, named("x")];
    let error = bind_call_arguments(&sig, &args, "f", Some(at()), true, false).unwrap_err();
    assert_eq!(error.message(), "call to 'f' supplies parameter 'x' more than once");
    assert_eq!(error.diagnostic_location(), Some(&at()));
}

#[test]
fn positional_arguments_may_not_follow_named_ones() {
    let sig = signature(&["x", "y"], &[false, false], None);
    let args = vec![named("x"), CallArgument::Positional];
    let error = bind_call_arguments(&sig, &args, "plot", None, true, false).unwrap_err();
    assert_eq!(
        error.message(),
        "call to 'plot' cannot place positional arguments after named arguments"
    );
    assert_eq!(error.diagnostic_location().unwrap().length, 4);
}

#[test]
fn a_missing_required_argument_is_named() {
    let sig = signature(&["x", "y"], &[false, false], None);
    let args = vec![named("x")];
    let error = bind_call_arguments(&sig, &args, "f", None, true, true).unwrap_err();
    assert_eq!(error.message(), "call to 'f' is missing required argument 'y'");
}

#[test]
fn a_missing_unnamed_argument_is_named_by_position() {
    let sig = signature(&["x"], &[false, false], None);
    let args = vec![named("x")];
    let error = bind_call_arguments(&sig, &args, "f", None, true, true).unwrap_err();
    assert_eq!(error.message(), "call to 'f' is missing required argument '#1'");
}

#[test]
fn trailing_positional_arguments_fill_the_variadic_pack() {
    let sig = signature(&["first", "rest"], &[false, false], Some(1));
    let args = vec![
        CallArgument::Positional,
        CallArgument::Positional,
        CallArgument::Positional,
        CallArgument::Positional,
    ];
    let bound = bind_call_arguments(&sig, &args, "f", None, false, true).unwrap();
    assert_eq!(bound, vec![BoundCallArg::Explicit(0), BoundCallArg::VariadicPack(vec![1, 2, 3])]);
}

#[test]
fn an_empty_variadic_pack_is_bound() {
    let sig = signature(&["first", "rest"], &[false, false], Some(1));
    let args = vec![CallArgument::Positional];
    let bound = bind_call_arguments(&sig, &args, "f", None, false, true).unwrap();
    assert_eq!(bound, vec![BoundCallArg::Explicit(0), BoundCallArg::VariadicPack(Vec::new())]);
}

#[test]
fn an_unpack_binds_the_variadic_parameter() {
    let sig = signature(&["first", "rest"], &[false, false], Some(1));
    let args = vec![CallArgument::Positional, CallArgument::Unpack];
    let bound = bind_call_arguments(&sig, &args, "f", None, false, false).unwrap();
    assert_eq!(bound, vec![BoundCallArg::Explicit(0), BoundCallArg::VariadicUnpack(1)]);
}

#[test]
fn an_unpack_needs_a_variadic_routine() {
    let sig = signature(&["x"], &[false], None);
    let args = vec![CallArgument::Unpack];
    let error = bind_call_arguments(&sig, &args, "f", None, false, false).unwrap_err();
    assert_eq!(error.message(), "call-site unpack is only supported for variadic calls in V1");
    assert_eq!(error.diagnostic_location().unwrap().length, 3);
}

#[test]
fn an_unpack_cannot_join_other_variadic_arguments() {
    let sig = signature(&["first", "rest"], &[false, false], Some(1));
    let args = vec![CallArgument::Positional, CallArgument::Positional, CallArgument::Unpack];
    let error = bind_call_arguments(&sig, &args, "f", None, false, true).unwrap_err();
    assert_eq!(
        error.message(),
        "call-site unpack cannot be combined with other variadic arguments in V1"
    );
}
