use lib::errors::TypecheckErrorKind;
use lib::ids::{ScopeId, SymbolId, SyntaxOrigin};
use lib::linear::{
    consume, join_when_paths, reject_any_held, reject_first_held, reject_first_held_in,
    reject_linear_capture, reject_release_in_loop, LinearContext, Slot,
};
use lib::sorted_map::SortedMap;
use lib::tasks::single_scope;

fn at(line: usize) -> SyntaxOrigin {
    SyntaxOrigin {
        file: None,
        line,
        column: 1,
        length: 1,
    }
}

fn slot(name: &str, line: usize, held: bool) -> Slot {
    Slot {
        name: name.to_string(),
        acquired: Some(at(line)),
        held,
    }
}

fn outside() -> LinearContext {
    LinearContext {
        loop_entry: None,
        in_deferred: false,
    }
}

fn leak_message(s: &Slot) -> (String, Option<SyntaxOrigin>) {
    (format!("'{}' leaks", s.name), s.acquired.clone())
}

#[test]
fn releasing_a_held_resource_marks_it_released_once() {
    let mut state: SortedMap<SymbolId, Slot> = SortedMap::new();
    state.insert(SymbolId(3), slot("file", 2, true));
    assert!(consume(&outside(), &mut state, SymbolId(3)).is_ok());
    assert!(!state.get(&SymbolId(3)).unwrap().held);

    let error = consume(&outside(), &mut state, SymbolId(3)).unwrap_err();
    assert_eq!(error.kind(), TypecheckErrorKind::InvalidInput);
    assert_eq!(error.message(), "'file' has already been released");
    assert_eq!(error.diagnostic_location(), Some(&at(2)));
}

#[test]
fn a_deferred_block_cannot_release_a_resource() {
    let mut state: SortedMap<SymbolId, Slot> = SortedMap::new();
    state.insert(SymbolId(3), slot("db", 7, true));
    let deferred = LinearContext {
        loop_entry: None,
        in_deferred: true,
    };
    let error = consume(&deferred, &mut state, SymbolId(3)).unwrap_err();
    assert_eq!(
        error.message(),
        "'db' cannot be released inside a deferred block: the block runs at scope exit, where a failed release has no caller to report to"
    );
    assert!(state.get(&SymbolId(3)).unwrap().held);
}

#[test]
fn the_first_held_resource_in_symbol_order_is_reported() {
    let mut state: SortedMap<SymbolId, Slot> = SortedMap::new();
    state.insert(SymbolId(9), slot("late", 9, true));
    state.insert(SymbolId(4), slot("early", 4, true));
    state.insert(SymbolId(1), slot("done", 1, false));
    let error = reject_any_held(&state, leak_message).unwrap_err();
    assert_eq!(error.message(), "'early' leaks");
    assert_eq!(error.diagnostic_location(), Some(&at(4)));

    let mut exempt: SortedMap<SymbolId, ()> = SortedMap::new();
    exempt.insert(SymbolId(4), ());
    let error = reject_first_held_in(&state, &exempt, leak_message).unwrap_err();
    assert_eq!(error.message(), "'late' leaks");
    exempt.insert(SymbolId(9), ());
    assert!(reject_first_held_in(&state, &exempt, leak_message).is_ok());

    let error = reject_first_held(&state, &exempt, leak_message).unwrap_err();
    assert_eq!(error.message(), "'early' leaks");
}

#[test]
fn nothing_held_is_nothing_to_report() {
    let mut state: SortedMap<SymbolId, Slot> = SortedMap::new();
    state.insert(SymbolId(2), slot("a", 2, false));
    assert!(reject_any_held(&state, leak_message).is_ok());
}

#[test]
fn a_single_scope_is_found_only_when_it_is_alone() {
    let mut scopes: SortedMap<ScopeId, ()> = SortedMap::new();
    assert_eq!(single_scope(&scopes), None);
    scopes.insert(ScopeId(4), ());
    assert_eq!(single_scope(&scopes), Some(ScopeId(4)));
    scopes.insert(ScopeId(2), ());
    assert_eq!(single_scope(&scopes), None);
}

#[test]
fn capturing_a_linear_binding_is_refused() {
    let mut state: SortedMap<SymbolId, Slot> = SortedMap::new();
    state.insert(SymbolId(4), slot("sock", 7, false));
    state.insert(SymbolId(9), slot("file", 3, true));
    let mut captured: SortedMap<SymbolId, ()> = SortedMap::new();
    captured.insert(SymbolId(2), ());
    assert!(reject_linear_capture(&captured, &state).is_ok());
    captured.insert(SymbolId(9), ());
    captured.insert(SymbolId(4), ());
    let error = reject_linear_capture(&captured, &state).unwrap_err();
    assert_eq!(error.kind(), TypecheckErrorKind::InvalidInput);
    assert_eq!(
        error.message(),
        "'sock' is a linear resource and cannot be captured: the release obligation would leave the scope that owes it"
    );
    assert_eq!(error.diagnostic_location(), Some(&at(7)));
}

fn state(entries: &[(usize, &str, usize, bool)]) -> SortedMap<SymbolId, Slot> {
    let mut m = SortedMap::new();
    for (id, name, line, held) in entries {
        m.insert(SymbolId(*id), slot(name, *line, *held));
    }
    m
}

#[test]
fn when_paths_join_only_when_they_agree() {
    assert!(join_when_paths(Vec::new()).unwrap().is_none());
    let joined = join_when_paths(vec![
        state(&[(1, "file", 3, false), (2, "db", 4, true)]),
        state(&[(1, "file", 3, false), (2, "db", 4, true)]),
    ])
    .unwrap()
    .unwrap();
    assert!(!joined.get(&SymbolId(1)).unwrap().held);
    let error = join_when_paths(vec![
        state(&[(1, "file", 3, false), (2, "db", 4, true)]),
        state(&[(1, "file", 3, false), (2, "db", 4, false)]),
    ])
    .unwrap_err();
    assert_eq!(error.kind(), TypecheckErrorKind::InvalidInput);
    assert_eq!(
        error.message(),
        "'db' is released on some branches of this 'when' but not others; every path must agree on whether a linear resource has been released"
    );
    assert_eq!(error.diagnostic_location(), Some(&at(4)));
}

#[test]
fn a_loop_cannot_release_what_was_acquired_before_it() {
    let before = state(&[(1, "file", 3, true), (2, "log", 5, false)]);
    assert!(reject_release_in_loop(&before, &state(&[(1, "file", 3, true), (2, "log", 5, false)])).is_ok());
    let error =
        reject_release_in_loop(&before, &state(&[(1, "file", 3, false), (2, "log", 5, false)])).unwrap_err();
    assert_eq!(
        error.message(),
        "'file' is released inside a loop, so a second iteration would release it again; move the release after the loop"
    );
    assert_eq!(error.diagnostic_location(), Some(&at(3)));
}
