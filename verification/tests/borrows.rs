use lib::ids::{ScopeId, SymbolId, SyntaxOrigin};
use lib::model::{ActiveBorrow, ActiveMutexGuard, TypedProgram};
use lib::sorted_map::SortedMap;

fn at(line: usize) -> SyntaxOrigin {
    SyntaxOrigin {
        file: None,
        line,
        column: 1,
        length: 1,
    }
}

fn loan(owner: usize, binding: usize, scope: usize, mutable: bool) -> ActiveBorrow {
    ActiveBorrow {
        owner: SymbolId(owner),
        binding: SymbolId(binding),
        scope: ScopeId(scope),
        mutable,
        origin: at(binding),
    }
}

#[test]
fn shared_loans_coexist_and_a_mutable_loan_is_exclusive() {
    let mut typed = TypedProgram::new();
    assert_eq!(typed.register_borrow(loan(1, 10, 0, false)), None);
    assert_eq!(typed.register_borrow(loan(1, 11, 0, false)), None);
    assert_eq!(
        typed.register_borrow(loan(1, 12, 0, true)),
        Some(loan(1, 10, 0, false))
    );
    assert!(typed.active_borrow_binding(SymbolId(12)).is_none());

    assert_eq!(typed.register_borrow(loan(2, 20, 0, true)), None);
    assert_eq!(
        typed.register_borrow(loan(2, 21, 0, false)),
        Some(loan(2, 20, 0, true))
    );
    assert_eq!(typed.active_borrow_for_owner(SymbolId(1)), Some(&loan(1, 10, 0, false)));
    assert_eq!(typed.borrow_for_binding(SymbolId(11)), Some(&loan(1, 11, 0, false)));
    assert_eq!(typed.borrow_for_owner(SymbolId(1)), Some(&loan(1, 10, 0, false)));
    let on_one = typed.borrows_for_owner(SymbolId(1));
    assert_eq!(on_one, vec![&loan(1, 10, 0, false), &loan(1, 11, 0, false)]);
}

#[test]
fn giving_a_loan_back_frees_the_owner_and_is_remembered() {
    let mut typed = TypedProgram::new();
    typed.register_borrow(loan(1, 10, 0, true));
    assert!(typed.give_back_borrow(SymbolId(10), at(30)));
    assert!(!typed.give_back_borrow(SymbolId(10), at(31)));
    assert_eq!(typed.returned_borrow_origin(SymbolId(10)), Some(&at(30)));
    assert!(typed.active_borrow_for_owner(SymbolId(1)).is_none());
    assert!(typed.active_borrow_binding(SymbolId(10)).is_none());
    assert_eq!(typed.borrow_for_binding(SymbolId(10)), Some(&loan(1, 10, 0, true)));
    assert_eq!(typed.register_borrow(loan(1, 13, 0, true)), None);
}

#[test]
fn a_scope_end_releases_only_its_loans() {
    let mut typed = TypedProgram::new();
    typed.register_borrow(loan(1, 10, 5, false));
    typed.register_borrow(loan(1, 11, 6, false));
    typed.register_borrow(loan(2, 12, 5, true));
    typed.release_borrows_in_scope(ScopeId(5));
    assert!(typed.active_borrow_binding(SymbolId(10)).is_none());
    assert!(typed.active_borrow_binding(SymbolId(12)).is_none());
    assert_eq!(typed.active_borrow_for_owner(SymbolId(1)), Some(&loan(1, 11, 6, false)));
    assert!(typed.active_borrow_for_owner(SymbolId(2)).is_none());
    assert!(typed.returned_borrow_origin(SymbolId(10)).is_none());
}

#[test]
fn a_loan_dies_after_its_last_use() {
    let mut typed = TypedProgram::new();
    typed.register_borrow(loan(1, 10, 5, false));
    typed.register_borrow(loan(2, 11, 5, false));
    typed.register_borrow(loan(3, 12, 5, false));
    typed.register_borrow(loan(4, 13, 6, false));
    let mut last_use = SortedMap::new();
    last_use.insert(SymbolId(10), 2);
    last_use.insert(SymbolId(11), 4);
    typed.release_scope_borrows_dead_after(ScopeId(5), 3, &last_use);
    assert!(typed.active_borrow_binding(SymbolId(10)).is_none());
    assert!(typed.active_borrow_binding(SymbolId(11)).is_some());
    assert!(typed.active_borrow_binding(SymbolId(12)).is_none());
    assert!(typed.active_borrow_binding(SymbolId(13)).is_some());
    assert!(typed.active_borrow_for_owner(SymbolId(1)).is_none());
    assert!(typed.active_borrow_for_owner(SymbolId(2)).is_some());
}

#[test]
fn a_mutex_is_locked_once_per_scope() {
    let mut typed = TypedProgram::new();
    let mutex = SymbolId(3);
    let guard = ActiveMutexGuard {
        scope: ScopeId(2),
        origin: at(1),
        bound: false,
    };
    assert_eq!(typed.register_mutex_guard(mutex, guard.clone()), None);
    assert_eq!(
        typed.register_mutex_guard(
            mutex,
            ActiveMutexGuard {
                scope: ScopeId(4),
                origin: at(2),
                bound: false,
            }
        ),
        Some(guard.clone())
    );
    assert!(typed.active_bound_guard().is_none());
    typed.mark_guard_bound(mutex);
    assert!(typed.active_mutex_guard(mutex).unwrap().bound);
    assert_eq!(typed.active_bound_guard().unwrap().scope, ScopeId(2));

    assert_eq!(typed.release_mutex_guard(mutex, ScopeId(9)), None);
    let released = typed.release_mutex_guard(mutex, ScopeId(2)).unwrap();
    assert!(released.bound);
    assert!(typed.active_mutex_guard(mutex).is_none());

    typed.register_mutex_guard(SymbolId(5), guard.clone());
    typed.register_mutex_guard(
        SymbolId(6),
        ActiveMutexGuard {
            scope: ScopeId(8),
            origin: at(3),
            bound: false,
        },
    );
    typed.release_mutex_guards_in_scope(ScopeId(2));
    assert!(typed.active_mutex_guard(SymbolId(5)).is_none());
    assert!(typed.active_mutex_guard(SymbolId(6)).is_some());
}
