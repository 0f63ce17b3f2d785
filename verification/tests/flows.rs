use lib::ids::{ScopeId, SymbolId, SyntaxOrigin};
use lib::model::{ActiveBorrow, TypedProgram};

fn at(line: usize) -> SyntaxOrigin {
    SyntaxOrigin {
        file: None,
        line,
        column: 1,
        length: 1,
    }
}

fn loan(owner: usize, binding: usize) -> ActiveBorrow {
    ActiveBorrow {
        owner: SymbolId(owner),
        binding: SymbolId(binding),
        scope: ScopeId(0),
        mutable: false,
        origin: at(binding),
    }
}

#[test]
fn a_move_on_either_branch_holds_after_the_merge() {
    let mut typed = TypedProgram::new();
    let baseline = typed.ownership_flow_state();

    typed.mark_binding_moved(SymbolId(1), at(3));
    typed.mark_field_moved(SymbolId(2), "left", at(4));
    let then_branch = typed.ownership_flow_state();

    typed.restore_ownership_flow(&baseline);
    assert!(typed.moved_binding_origin(SymbolId(1)).is_none());
    typed.mark_binding_moved(SymbolId(1), at(7));
    typed.mark_field_moved(SymbolId(2), "right", at(8));
    let else_branch = typed.ownership_flow_state();

    typed.merge_ownership_flows(&baseline, &[then_branch, else_branch]);
    assert_eq!(typed.moved_binding_origin(SymbolId(1)), Some(&at(3)));
    assert_eq!(typed.moved_field_origin(SymbolId(2), "left"), Some(&at(4)));
    assert_eq!(typed.moved_field_origin(SymbolId(2), "right"), Some(&at(8)));
}

#[test]
fn merging_no_branch_restores_the_baseline() {
    let mut typed = TypedProgram::new();
    typed.mark_binding_moved(SymbolId(1), at(1));
    let baseline = typed.ownership_flow_state();
    typed.mark_binding_reinitialized(SymbolId(1), None);
    typed.mark_binding_moved(SymbolId(5), at(2));
    typed.merge_ownership_flows(&baseline, &[]);
    assert_eq!(typed.moved_binding_origin(SymbolId(1)), Some(&at(1)));
    assert!(typed.moved_binding_origin(SymbolId(5)).is_none());
}

#[test]
fn a_loan_given_back_on_one_branch_stays_live_but_its_borrower_is_gone() {
    let mut typed = TypedProgram::new();
    typed.register_borrow(loan(1, 10));
    typed.register_borrow(loan(2, 20));
    let baseline = typed.ownership_flow_state();

    typed.give_back_borrow(SymbolId(10), at(5));
    typed.give_back_borrow(SymbolId(20), at(6));
    let then_branch = typed.ownership_flow_state();

    typed.restore_ownership_flow(&baseline);
    typed.give_back_borrow(SymbolId(20), at(9));
    let else_branch = typed.ownership_flow_state();

    typed.merge_ownership_flows(&baseline, &[then_branch, else_branch]);
    assert_eq!(typed.active_borrow_for_owner(SymbolId(1)), Some(&loan(1, 10)));
    assert!(typed.active_borrow_for_owner(SymbolId(2)).is_none());
    assert!(typed.active_borrow_binding(SymbolId(10)).is_none());
    assert!(typed.active_borrow_binding(SymbolId(20)).is_none());
    assert_eq!(typed.returned_borrow_origin(SymbolId(10)), Some(&at(5)));
    assert_eq!(typed.returned_borrow_origin(SymbolId(20)), Some(&at(6)));
}

#[test]
fn an_obligation_left_on_one_branch_is_still_owed() {
    let mut typed = TypedProgram::new();
    typed.register_recoverable_eventual_obligation(SymbolId(3), ScopeId(1), ScopeId(1), None);
    let baseline = typed.ownership_flow_state();
    typed.mark_eventual_awaited(SymbolId(3), at(2));
    let handled = typed.ownership_flow_state();
    typed.restore_ownership_flow(&baseline);
    let unhandled = typed.ownership_flow_state();
    typed.merge_ownership_flows(&baseline, &[handled, unhandled]);
    assert!(typed.recoverable_eventual_obligation(SymbolId(3)).is_some());
    assert!(typed.moved_binding_origin(SymbolId(3)).is_some());
}
