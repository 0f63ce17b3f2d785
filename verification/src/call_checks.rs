//! Checks made at a call site once its arguments are bound to parameters:
//! loans taken for borrow parameters, mutex handles forwarded to mutex
//! parameters, and eventuals passed as arguments.
use crate::apparent::{result_view, type_at};
use crate::arguments::{BoundArgView, BoundCallArg};
use crate::borrows::loans_on;
use crate::errors::{TypecheckError, TypecheckErrorKind, TypecheckErrorView};
use crate::ids::{ReferenceId, SymbolId, SyntaxNodeId, SyntaxOrigin, SyntaxOriginView};
use crate::model::TypedProgram;
use crate::ownership::{FactsView, OwnershipView};
use crate::rejections::{error_at, origin_view};
use crate::resolution::{ResolvedReference, Resolution};
use crate::text::{owned, push_text};
use crate::resolution::reference_symbol;
use crate::transfers::{identifier_target, symbol_fact};
use crate::types::{CheckedTypeId, CheckedTypeView, RoutineType};
use vstd::prelude::*;

verus! {

/// The shape of an argument expression, as far as the call-site checks
/// read it.
pub enum ArgShape {
    /// `#place`, with the use of the identifier the place is rooted at, if
    /// it is rooted at one.
    BorrowFrom(Option<SyntaxNodeId>),
    /// A bare identifier, used at this syntax node.
    Identifier(SyntaxNodeId),
    /// Any other expression.
    Other,
}

/// What the call-site checks read of one argument expression.
pub struct CallArgFacts {
    /// Where the argument is written, when known.
    pub origin: Option<SyntaxOrigin>,
    pub shape: ArgShape,
    /// The syntax nodes of the whole argument expression.
    pub syntax_ids: Vec<SyntaxNodeId>,
}

/// The argument a parameter is bound to directly: an explicit argument or
/// an unpacked sequence.
pub open spec fn direct_arg(b: BoundArgView) -> Option<usize> {
    match b {
        BoundArgView::Explicit(a) => Some(a),
        BoundArgView::VariadicUnpack(a) => Some(a),
        _ => None,
    }
}

/// The owner `#place` borrows from: the symbol its root identifier
/// resolved to.
pub open spec fn borrow_owner(resolution: &Resolution, f: CallArgFacts) -> Option<SymbolId> {
    match f.shape {
        ArgShape::BorrowFrom(Some(id)) => identifier_target(resolution, id),
        _ => None,
    }
}

/// The symbol a bare identifier argument resolved to.
pub open spec fn named_symbol(resolution: &Resolution, f: CallArgFacts) -> Option<SymbolId> {
    match f.shape {
        ArgShape::Identifier(id) => identifier_target(resolution, id),
        _ => None,
    }
}

/// Whether the argument names a binding declared with a borrowed type.
pub open spec fn is_borrow_binding(
    facts: FactsView,
    symbols: Map<crate::ids::SymbolId, crate::model::TypedSymbol>,
    resolution: &Resolution,
    f: CallArgFacts,
) -> bool {
    match symbol_fact(symbols, named_symbol(resolution, f)) {
        Some(ts) => match ts.declared_type {
            Some(t) => type_at(facts, t) matches Some(CheckedTypeView::Borrowed { .. }),
            None => false,
        },
        None => false,
    }
}

/// Whether some name use inside the argument resolved to `symbol`.
pub open spec fn mentions(resolution: &Resolution, f: CallArgFacts, symbol: SymbolId) -> bool {
    exists|i: int|
        0 <= i < resolution.references.entries().len() && #[trigger] mentioned_at(
            resolution.references.entries()[i].1,
            f,
            symbol,
        )
}

/// Whether name use `r` resolved to `symbol` inside the argument.
pub open spec fn mentioned_at(r: ResolvedReference, f: CallArgFacts, symbol: SymbolId) -> bool {
    r.resolved == Some(symbol) && match r.syntax_id {
        Some(s) => f.syntax_ids@.contains(s),
        None => false,
    }
}

/// Whether one of the arguments at positions `list` mentions `symbol`.
pub open spec fn pack_mentions(
    resolution: &Resolution,
    args: Seq<CallArgFacts>,
    list: Seq<usize>,
    symbol: SymbolId,
) -> bool {
    exists|j: int| 0 <= j < list.len() && #[trigger] mentions(resolution, args[list[j] as int], symbol)
}

/// Whether what a parameter is bound to mentions `symbol`.
pub open spec fn bound_mentions(
    resolution: &Resolution,
    args: Seq<CallArgFacts>,
    b: BoundArgView,
    symbol: SymbolId,
) -> bool {
    match b {
        BoundArgView::Explicit(a) => mentions(resolution, args[a as int], symbol),
        BoundArgView::VariadicUnpack(a) => mentions(resolution, args[a as int], symbol),
        BoundArgView::VariadicPack(list) => pack_mentions(resolution, args, list, symbol),
        BoundArgView::Default => false,
    }
}

/// The position of the first argument in `list` whose position is known.
pub open spec fn first_origin(args: Seq<CallArgFacts>, list: Seq<usize>) -> Option<SyntaxOriginView>
    decreases list.len(),
{
    if list.len() == 0 {
        None
    } else {
        match args[list[0] as int].origin {
            Some(o) => Some(o@),
            None => first_origin(args, list.drop_first()),
        }
    }
}

/// Where what a parameter is bound to is written, when known.
pub open spec fn bound_origin(args: Seq<CallArgFacts>, b: BoundArgView) -> Option<SyntaxOriginView> {
    match b {
        BoundArgView::Explicit(a) => origin_view(args[a as int].origin),
        BoundArgView::VariadicUnpack(a) => origin_view(args[a as int].origin),
        BoundArgView::VariadicPack(list) => first_origin(args, list),
        BoundArgView::Default => None,
    }
}

/// The first of two optional positions that is known.
pub open spec fn either(a: Option<SyntaxOriginView>, b: Option<SyntaxOriginView>) -> Option<
    SyntaxOriginView,
> {
    match a {
        Some(x) => Some(x),
        None => b,
    }
}

/// A position, or the start of the program.
pub open spec fn or_start(o: Option<SyntaxOriginView>) -> SyntaxOriginView {
    match o {
        Some(x) => x,
        None => SyntaxOriginView { file: None, line: 1, column: 1, length: 1 },
    }
}

/// Every argument position in `bound` is one of the arguments.
pub open spec fn within(bound: Seq<BoundArgView>, n: int) -> bool {
    forall|i: int|
        0 <= i < bound.len() ==> match #[trigger] bound[i] {
            BoundArgView::Explicit(a) => a < n,
            BoundArgView::VariadicUnpack(a) => a < n,
            BoundArgView::VariadicPack(list) => forall|j: int| 0 <= j < list.len() ==> list[j] < n,
            BoundArgView::Default => true,
        }
}

/// The values of the bindings of a call's parameters.
pub open spec fn bound_views(bound: Seq<BoundCallArg>) -> Seq<BoundArgView> {
    crate::arguments::bound_view(bound)
}

/// A loan a call takes for a borrow parameter: the owner, where it is
/// taken, and whether it is mutable.
pub type CallLoan = (SymbolId, SyntaxOriginView, bool);

/// The diagnostic for a call-site loan that clashes with a live loan.
pub open spec fn incompatible_loan_error(
    callee: Seq<char>,
    origin: SyntaxOriginView,
    existing: SyntaxOriginView,
) -> TypecheckErrorView {
    TypecheckErrorView {
        kind: TypecheckErrorKind::BorrowConflict,
        message: "call to '"@ + callee
            + "' borrows an owner that already has an incompatible active borrow"@,
        origin: Some(origin),
        related: seq![(existing, "conflicting borrow created here"@)],
    }
}

/// The diagnostic for passing something other than a loan to a borrow
/// parameter.
pub open spec fn not_a_loan_error(callee: Seq<char>, origin: Option<SyntaxOriginView>) -> TypecheckErrorView {
    error_at(
        TypecheckErrorKind::BorrowConflict,
        "call to '"@ + callee
            + "' must pass '#owner' or an existing borrow binding to a [bor] parameter"@,
        origin,
    )
}

/// Checking parameter `i` of a call: a borrow parameter takes a loan of the
/// owner of `#owner`, unless it clashes with the owner's first live loan,
/// or accepts an existing borrow binding; anything else is refused.
pub open spec fn loan_source_step(
    facts: FactsView,
    symbols: Map<crate::ids::SymbolId, crate::model::TypedSymbol>,
    o: OwnershipView,
    resolution: &Resolution,
    params: Seq<CheckedTypeId>,
    bound: Seq<BoundArgView>,
    args: Seq<CallArgFacts>,
    callee: Seq<char>,
    call_origin: Option<SyntaxOriginView>,
    i: int,
    loans: Seq<Option<CallLoan>>,
) -> Result<Seq<Option<CallLoan>>, TypecheckErrorView> {
    match type_at(facts, params[i]) {
        Some(CheckedTypeView::Borrowed { mutable, .. }) => match direct_arg(bound[i]) {
            None => Ok(loans),
            Some(a) => {
                let f = args[a as int];
                let at = either(origin_view(f.origin), call_origin);
                match borrow_owner(resolution, f) {
                    Some(owner) => {
                        let live = loans_on(o.active_borrows, owner);
                        if live.len() > 0 && (mutable || live[0].mutable) {
                            Err(incompatible_loan_error(callee, or_start(at), live[0].origin))
                        } else {
                            Ok(loans.update(i, Some((owner, or_start(at), mutable))))
                        }
                    },
                    None => {
                        if is_borrow_binding(facts, symbols, resolution, f) {
                            Ok(loans)
                        } else {
                            Err(not_a_loan_error(callee, at))
                        }
                    },
                }
            },
        },
        _ => Ok(loans),
    }
}

/// The loans taken for the first `k` parameters, or the first diagnostic.
pub open spec fn loan_sources(
    facts: FactsView,
    symbols: Map<crate::ids::SymbolId, crate::model::TypedSymbol>,
    o: OwnershipView,
    resolution: &Resolution,
    params: Seq<CheckedTypeId>,
    bound: Seq<BoundArgView>,
    args: Seq<CallArgFacts>,
    callee: Seq<char>,
    call_origin: Option<SyntaxOriginView>,
    k: nat,
) -> Result<Seq<Option<CallLoan>>, TypecheckErrorView>
    decreases k,
{
    if k == 0 {
        Ok(Seq::new(bound.len(), |i: int| None))
    } else {
        match loan_sources(
            facts,
            symbols,
            o,
            resolution,
            params,
            bound,
            args,
            callee,
            call_origin,
            (k - 1) as nat,
        ) {
            Ok(loans) => loan_source_step(
                facts,
                symbols,
                o,
                resolution,
                params,
                bound,
                args,
                callee,
                call_origin,
                k - 1,
                loans,
            ),
            Err(e) => Err(e),
        }
    }
}

/// Argument `a` touches the owner borrowed for parameter `b` while the loan
/// is taken: it is another argument, not itself a loan of the same owner,
/// and mentions the owner.
pub open spec fn touches_loaned_owner(
    resolution: &Resolution,
    bound: Seq<BoundArgView>,
    args: Seq<CallArgFacts>,
    loans: Seq<Option<CallLoan>>,
    b: int,
    a: int,
) -> bool {
    match loans[b] {
        Some((owner, _, _)) => {
            &&& a != b
            &&& !(loans[a] matches Some((other, _, _)) && other == owner)
            &&& bound_mentions(resolution, args, bound[a], owner)
        },
        None => false,
    }
}

/// The diagnostic for an argument that touches an owner loaned to another.
pub open spec fn touched_owner_error(
    args: Seq<CallArgFacts>,
    bound: Seq<BoundArgView>,
    callee: Seq<char>,
    call_origin: Option<SyntaxOriginView>,
    loan_origin: SyntaxOriginView,
    a: int,
) -> TypecheckErrorView {
    TypecheckErrorView {
        kind: TypecheckErrorKind::BorrowConflict,
        message: "call to '"@ + callee
            + "' accesses an owner in another argument while it is borrowed for a [bor] parameter"@,
        origin: Some(
            match either(bound_origin(args, bound[a]), call_origin) {
                Some(x) => x,
                None => loan_origin,
            },
        ),
        related: seq![(loan_origin, "call-site borrow created here"@)],
    }
}

/// Checking, for the loan of parameter `b`, the first `k` arguments.
pub open spec fn touch_scan(
    resolution: &Resolution,
    bound: Seq<BoundArgView>,
    args: Seq<CallArgFacts>,
    loans: Seq<Option<CallLoan>>,
    callee: Seq<char>,
    call_origin: Option<SyntaxOriginView>,
    b: int,
    k: nat,
) -> Result<(), TypecheckErrorView>
    decreases k,
{
    if k == 0 {
        Ok(())
    } else {
        match touch_scan(resolution, bound, args, loans, callee, call_origin, b, (k - 1) as nat) {
            Ok(()) => {
                if touches_loaned_owner(resolution, bound, args, loans, b, k - 1) {
                    Err(
                        touched_owner_error(
                            args,
                            bound,
                            callee,
                            call_origin,
                            loans[b]->Some_0.1,
                            k - 1,
                        ),
                    )
                } else {
                    Ok(())
                }
            },
            Err(e) => Err(e),
        }
    }
}

/// Checking the loans of the first `k` parameters against every argument.
pub open spec fn loans_scan(
    resolution: &Resolution,
    bound: Seq<BoundArgView>,
    args: Seq<CallArgFacts>,
    loans: Seq<Option<CallLoan>>,
    callee: Seq<char>,
    call_origin: Option<SyntaxOriginView>,
    k: nat,
) -> Result<(), TypecheckErrorView>
    decreases k,
{
    if k == 0 {
        Ok(())
    } else {
        match loans_scan(resolution, bound, args, loans, callee, call_origin, (k - 1) as nat) {
            Ok(()) => touch_scan(
                resolution,
                bound,
                args,
                loans,
                callee,
                call_origin,
                k - 1,
                bound.len(),
            ),
            Err(e) => Err(e),
        }
    }
}

/// What checking the borrow parameters of a call comes to: each borrow
/// parameter takes a loan or accepts a borrow binding, then no other
/// argument may touch an owner loaned for the call.
pub open spec fn call_site_borrows(
    facts: FactsView,
    symbols: Map<crate::ids::SymbolId, crate::model::TypedSymbol>,
    o: OwnershipView,
    resolution: &Resolution,
    params: Seq<CheckedTypeId>,
    bound: Seq<BoundArgView>,
    args: Seq<CallArgFacts>,
    callee: Seq<char>,
    call_origin: Option<SyntaxOriginView>,
) -> Result<(), TypecheckErrorView> {
    let n = if params.len() < bound.len() {
        params.len()
    } else {
        bound.len()
    };
    match loan_sources(
        facts,
        symbols,
        o,
        resolution,
        params,
        bound,
        args,
        callee,
        call_origin,
        n,
    ) {
        Ok(loans) => loans_scan(resolution, bound, args, loans, callee, call_origin, bound.len()),
        Err(e) => Err(e),
    }
}

proof fn lemma_sources_stop(
    facts: FactsView,
    symbols: Map<crate::ids::SymbolId, crate::model::TypedSymbol>,
    o: OwnershipView,
    resolution: &Resolution,
    params: Seq<CheckedTypeId>,
    bound: Seq<BoundArgView>,
    args: Seq<CallArgFacts>,
    callee: Seq<char>,
    call_origin: Option<SyntaxOriginView>,
    k: nat,
    m: nat,
)
    requires
        k <= m,
        loan_sources(facts, symbols, o, resolution, params, bound, args, callee, call_origin, k) is Err,
    ensures
        loan_sources(facts, symbols, o, resolution, params, bound, args, callee, call_origin, m)
            == loan_sources(facts, symbols, o, resolution, params, bound, args, callee, call_origin, k),
    decreases m - k,
{
    if k < m {
        lemma_sources_stop(
            facts,
            symbols,
            o,
            resolution,
            params,
            bound,
            args,
            callee,
            call_origin,
            k,
            (m - 1) as nat,
        );
    }
}

proof fn lemma_touch_stop(
    resolution: &Resolution,
    bound: Seq<BoundArgView>,
    args: Seq<CallArgFacts>,
    loans: Seq<Option<CallLoan>>,
    callee: Seq<char>,
    call_origin: Option<SyntaxOriginView>,
    b: int,
    k: nat,
    m: nat,
)
    requires
        k <= m,
        touch_scan(resolution, bound, args, loans, callee, call_origin, b, k) is Err,
    ensures
        touch_scan(resolution, bound, args, loans, callee, call_origin, b, m) == touch_scan(
            resolution,
            bound,
            args,
            loans,
            callee,
            call_origin,
            b,
            k,
        ),
    decreases m - k,
{
    if k < m {
        lemma_touch_stop(resolution, bound, args, loans, callee, call_origin, b, k, (m - 1) as nat);
    }
}

proof fn lemma_untaken_touches_nothing(
    resolution: &Resolution,
    bound: Seq<BoundArgView>,
    args: Seq<CallArgFacts>,
    loans: Seq<Option<CallLoan>>,
    callee: Seq<char>,
    call_origin: Option<SyntaxOriginView>,
    b: int,
    k: nat,
)
    requires
        loans[b] is None,
    ensures
        touch_scan(resolution, bound, args, loans, callee, call_origin, b, k) == Ok::<
            (),
            TypecheckErrorView,
        >(()),
    decreases k,
{
    if k > 0 {
        lemma_untaken_touches_nothing(resolution, bound, args, loans, callee, call_origin, b, (k - 1) as nat);
    }
}

proof fn lemma_scan_stop(
    resolution: &Resolution,
    bound: Seq<BoundArgView>,
    args: Seq<CallArgFacts>,
    loans: Seq<Option<CallLoan>>,
    callee: Seq<char>,
    call_origin: Option<SyntaxOriginView>,
    k: nat,
    m: nat,
)
    requires
        k <= m,
        loans_scan(resolution, bound, args, loans, callee, call_origin, k) is Err,
    ensures
        loans_scan(resolution, bound, args, loans, callee, call_origin, m) == loans_scan(
            resolution,
            bound,
            args,
            loans,
            callee,
            call_origin,
            k,
        ),
    decreases m - k,
{
    if k < m {
        lemma_scan_stop(resolution, bound, args, loans, callee, call_origin, k, (m - 1) as nat);
    }
}

/// The owner `#place` borrows from.
fn borrow_from_owner(resolution: &Resolution, f: &CallArgFacts) -> (r: Option<SymbolId>)
    ensures
        r == borrow_owner(resolution, *f),
{
    match &f.shape {
        ArgShape::BorrowFrom(Some(id)) => reference_symbol(resolution, *id),
        _ => None,
    }
}

/// The symbol a bare identifier argument resolved to.
fn symbol_named(resolution: &Resolution, f: &CallArgFacts) -> (r: Option<SymbolId>)
    ensures
        r == named_symbol(resolution, *f),
{
    match &f.shape {
        ArgShape::Identifier(id) => reference_symbol(resolution, *id),
        _ => None,
    }
}

/// Whether the argument names a binding declared with a borrowed type.
fn argument_is_borrow_binding(typed: &TypedProgram, resolution: &Resolution, f: &CallArgFacts) -> (r: bool)
    ensures
        r == is_borrow_binding(typed.facts(), typed.symbol_facts(), resolution, *f),
{
    let symbol = match symbol_named(resolution, f) {
        Some(s) => s,
        None => {
            return false;
        },
    };
    match typed.typed_symbol(symbol) {
        Some(ts) => match ts.declared_type {
            Some(t) => match typed.type_table().get(t) {
                Some(crate::types::CheckedType::Borrowed { .. }) => true,
                _ => false,
            },
            None => false,
        },
        None => false,
    }
}

/// Whether `ids` holds `s`.
fn holds_node(ids: &Vec<SyntaxNodeId>, s: SyntaxNodeId) -> (r: bool)
    ensures
        r == ids@.contains(s),
{
    let mut i: usize = 0;
    while i < ids.len()
        invariant
            i <= ids.len(),
            forall|j: int| 0 <= j < i ==> ids@[j] != s,
        decreases ids.len() - i,
    {
        if ids[i] == s {
            proof {
                assert(ids@[i as int] == s);
            }
            return true;
        }
        i = i + 1;
    }
    false
}

/// Whether some name use inside the argument resolved to `symbol`.
fn node_references_symbol(resolution: &Resolution, f: &CallArgFacts, symbol: SymbolId) -> (r: bool)
    ensures
        r == mentions(resolution, *f, symbol),
{
    let ghost e = resolution.references.entries();
    let mut i: usize = 0;
    while i < resolution.references.len()
        invariant
            e == resolution.references.entries(),
            i <= e.len(),
            forall|j: int| 0 <= j < i ==> !#[trigger] mentioned_at(e[j].1, *f, symbol),
        decreases e.len() - i,
    {
        let r = resolution.references.value_at(i);
        let hit = r.resolved == Some(symbol) && match r.syntax_id {
            Some(s) => holds_node(&f.syntax_ids, s),
            None => false,
        };
        if hit {
            proof {
                assert(mentioned_at(e[i as int].1, *f, symbol));
            }
            return true;
        }
        i = i + 1;
    }
    false
}

/// Whether what a parameter is bound to mentions `symbol`.
fn bound_arg_references_symbol(
    resolution: &Resolution,
    args: &Vec<CallArgFacts>,
    b: &BoundCallArg,
    symbol: SymbolId,
) -> (r: bool)
    requires
        within(seq![b@], args.len() as int),
    ensures
        r == bound_mentions(resolution, args@, b@, symbol),
{
    proof {
        assert(match seq![b@][0] {
            BoundArgView::Explicit(a) => a < args.len(),
            BoundArgView::VariadicUnpack(a) => a < args.len(),
            BoundArgView::VariadicPack(list) => forall|j: int|
                0 <= j < list.len() ==> list[j] < args.len(),
            BoundArgView::Default => true,
        });
    }
    match b {
        BoundCallArg::Explicit(a) => node_references_symbol(resolution, &args[*a], symbol),
        BoundCallArg::VariadicUnpack(a) => node_references_symbol(resolution, &args[*a], symbol),
        BoundCallArg::VariadicPack(list) => {
            let mut j: usize = 0;
            while j < list.len()
                invariant
                    j <= list.len(),
                    b@ == BoundArgView::VariadicPack(list@),
                    forall|t: int| 0 <= t < list.len() ==> list@[t] < args.len(),
                    forall|t: int|
                        0 <= t < j ==> !#[trigger] mentions(resolution, args@[list@[t] as int], symbol),
                decreases list.len() - j,
            {
                if node_references_symbol(resolution, &args[list[j]], symbol) {
                    proof {
                        assert(0 <= j < list@.len() && mentions(
                            resolution,
                            args@[list@[j as int] as int],
                            symbol,
                        ));

                    }
                    return true;
                }
                j = j + 1;
            }
            false
        },
        BoundCallArg::Default => false,
    }
}

/// Where what a parameter is bound to is written, when known.
fn node_origin_for_bound_arg(args: &Vec<CallArgFacts>, b: &BoundCallArg) -> (r: Option<SyntaxOrigin>)
    requires
        within(seq![b@], args.len() as int),
    ensures
        origin_view(r) == bound_origin(args@, b@),
{
    proof {
        assert(match seq![b@][0] {
            BoundArgView::Explicit(a) => a < args.len(),
            BoundArgView::VariadicUnpack(a) => a < args.len(),
            BoundArgView::VariadicPack(list) => forall|j: int|
                0 <= j < list.len() ==> list[j] < args.len(),
            BoundArgView::Default => true,
        });
    }
    match b {
        BoundCallArg::Explicit(a) => crate::ids::copy_origin(&args[*a].origin),
        BoundCallArg::VariadicUnpack(a) => crate::ids::copy_origin(&args[*a].origin),
        BoundCallArg::VariadicPack(list) => {
            let mut j: usize = 0;
            proof {
                assert(list@.skip(0) =~= list@);
            }
            while j < list.len()
                invariant
                    j <= list.len(),
                    b@ == BoundArgView::VariadicPack(list@),
                    forall|t: int| 0 <= t < list.len() ==> list@[t] < args.len(),
                    first_origin(args@, list@) == first_origin(args@, list@.skip(j as int)),
                decreases list.len() - j,
            {
                proof {
                    assert(list@.skip(j as int).drop_first() =~= list@.skip(j + 1));
                }
                proof {
                    assert(list@.skip(j as int)[0] == list@[j as int]);
                }
                match &args[list[j]].origin {
                    Some(o) => {
                        return Some(o.copy());
                    },
                    None => {},
                }
                j = j + 1;
            }
            proof {
                assert(list@.skip(j as int).len() == 0);
            }
            None
        },
        BoundCallArg::Default => None,
    }
}

/// The first of two optional positions that is known.
pub(crate) fn either_origin(a: Option<SyntaxOrigin>, b: &Option<SyntaxOrigin>) -> (r: Option<SyntaxOrigin>)
    ensures
        origin_view(r) == either(origin_view(a), origin_view(*b)),
{
    match a {
        Some(x) => Some(x),
        None => crate::ids::copy_origin(b),
    }
}

/// The views of the loans a call takes.
pub open spec fn call_loans_view(v: Seq<Option<(SymbolId, SyntaxOrigin, bool)>>) -> Seq<Option<CallLoan>> {
    v.map_values(
        |x: Option<(SymbolId, SyntaxOrigin, bool)>|
            match x {
                Some(l) => Some((l.0, l.1@, l.2)),
                None => None,
            },
    )
}

/// Checks the borrow parameters of a call to `callee`, whose parameters are
/// bound as `args` says to the arguments described by `arg_facts`: each
/// borrow parameter takes a loan of `#owner` or accepts a borrow binding,
/// and no other argument touches an owner loaned for the call.
pub fn validate_call_site_borrows(
    typed: &TypedProgram,
    resolution: &Resolution,
    signature: &RoutineType,
    args: &Vec<BoundCallArg>,
    arg_facts: &Vec<CallArgFacts>,
    callee: &str,
    call_origin: Option<SyntaxOrigin>,
) -> (r: Result<(), TypecheckError>)
    requires
        within(bound_views(args@), arg_facts.len() as int),
    ensures
        result_view(r) == call_site_borrows(
            typed.facts(),
            typed.symbol_facts(),
            typed.ownership(),
            resolution,
            signature.params@,
            bound_views(args@),
            arg_facts@,
            callee@,
            origin_view(call_origin),
        ),
{
    let ghost facts = typed.facts();
    let ghost symbols = typed.symbol_facts();
    let ghost o = typed.ownership();
    let ghost params = signature.params@;
    let ghost bound = bound_views(args@);
    let ghost fs = arg_facts@;
    let ghost co = origin_view(call_origin);
    let n = if signature.params.len() < args.len() {
        signature.params.len()
    } else {
        args.len()
    };
    let mut loans: Vec<Option<(SymbolId, SyntaxOrigin, bool)>> = Vec::new();
    while loans.len() < args.len()
        invariant
            loans.len() <= args.len(),
            forall|j: int| 0 <= j < loans.len() ==> loans@[j] is None,
        decreases args.len() - loans.len(),
    {
        loans.push(None);
    }
    proof {
        assert(call_loans_view(loans@) =~= Seq::new(bound.len(), |i: int| None));
    }
    let mut i: usize = 0;
    while i < n
        invariant
            i <= n,
            n <= args.len(),
            n <= signature.params.len(),
            n == (if params.len() < bound.len() { params.len() } else { bound.len() }),
            loans.len() == args.len(),
            facts == typed.facts(),
            symbols == typed.symbol_facts(),
            o == typed.ownership(),
            params == signature.params@,
            bound == bound_views(args@),
            fs == arg_facts@,
            co == origin_view(call_origin),
            within(bound, arg_facts.len() as int),
            loan_sources(facts, symbols, o, resolution, params, bound, fs, callee@, co, i as nat)
                == Ok::<Seq<Option<CallLoan>>, TypecheckErrorView>(call_loans_view(loans@)),
        decreases n - i,
    {
        let ghost before = loans@;
        let borrowed = match typed.type_table().get(signature.params[i]) {
            Some(crate::types::CheckedType::Borrowed { mutable, .. }) => Some(*mutable),
            _ => None,
        };
        if let Some(mutable) = borrowed {
            assert(bound[i as int] == args@[i as int]@);
            let direct = match &args[i] {
                BoundCallArg::Explicit(a) => Some(*a),
                BoundCallArg::VariadicUnpack(a) => Some(*a),
                _ => None,
            };
            if let Some(a) = direct {
                proof {
                    assert(match bound[i as int] {
                        BoundArgView::Explicit(x) => x < arg_facts.len(),
                        BoundArgView::VariadicUnpack(x) => x < arg_facts.len(),
                        BoundArgView::VariadicPack(list) => forall|j: int|
                            0 <= j < list.len() ==> list[j] < arg_facts.len(),
                        BoundArgView::Default => true,
                    });
                }
                let f = &arg_facts[a];
                let at = either_origin(crate::ids::copy_origin(&f.origin), &call_origin);
                match borrow_from_owner(resolution, f) {
                    Some(owner) => {
                        let taken_at = match at {
                            Some(x) => x,
                            None => SyntaxOrigin { file: None, line: 1, column: 1, length: 1 },
                        };
                        match typed.active_borrow_for_owner(owner) {
                            Some(conflict) => {
                                if mutable || conflict.mutable {
                                    let mut message = owned("call to '");
                                    push_text(&mut message, callee);
                                    push_text(
                                        &mut message,
                                        "' borrows an owner that already has an incompatible active borrow",
                                    );
                                    let e = TypecheckError::with_origin(
                                        TypecheckErrorKind::BorrowConflict,
                                        message.as_str(),
                                        taken_at,
                                    ).with_related_origin(
                                        conflict.origin.copy(),
                                        "conflicting borrow created here",
                                    );
                                    proof {
                                        assert(e@.related =~= seq![
                                            (conflict.origin@, "conflicting borrow created here"@),
                                        ]);
                                        lemma_sources_stop(
                                            facts,
                                            symbols,
                                            o,
                                            resolution,
                                            params,
                                            bound,
                                            fs,
                                            callee@,
                                            co,
                                            (i + 1) as nat,
                                            n as nat,
                                        );
                                    }
                                    return Err(e);
                                }
                            },
                            None => {},
                        }
                        let ghost taken_view = taken_at@;
                        loans.set(i, Some((owner, taken_at, mutable)));
                        proof {
                            assert(call_loans_view(loans@) =~= call_loans_view(before).update(
                                i as int,
                                Some((owner, taken_view, mutable)),
                            ));
                        }
                    },
                    None => {
                        if !argument_is_borrow_binding(typed, resolution, f) {
                            let mut message = owned("call to '");
                            push_text(&mut message, callee);
                            push_text(
                                &mut message,
                                "' must pass '#owner' or an existing borrow binding to a [bor] parameter",
                            );
                            let e = TypecheckError::at(
                                TypecheckErrorKind::BorrowConflict,
                                message.as_str(),
                                at,
                            );
                            proof {
                                lemma_sources_stop(
                                    facts,
                                    symbols,
                                    o,
                                    resolution,
                                    params,
                                    bound,
                                    fs,
                                    callee@,
                                    co,
                                    (i + 1) as nat,
                                    n as nat,
                                );
                            }
                            return Err(e);
                        }
                    },
                }
            }
        }
        i = i + 1;
    }
    let ghost taken = call_loans_view(loans@);
    let mut b: usize = 0;
    while b < loans.len()
        invariant
            b <= loans.len(),
            facts == typed.facts(),
            symbols == typed.symbol_facts(),
            o == typed.ownership(),
            params == signature.params@,
            loans.len() == args.len(),
            taken == call_loans_view(loans@),
            bound == bound_views(args@),
            fs == arg_facts@,
            co == origin_view(call_origin),
            within(bound, arg_facts.len() as int),
            loan_sources(facts, symbols, o, resolution, params, bound, fs, callee@, co, n as nat)
                == Ok::<Seq<Option<CallLoan>>, TypecheckErrorView>(taken),
            n == (if params.len() < bound.len() { params.len() } else { bound.len() }),
            loans_scan(resolution, bound, fs, taken, callee@, co, b as nat) == Ok::<
                (),
                TypecheckErrorView,
            >(()),
        decreases loans.len() - b,
    {
        match &loans[b] {
            Some((owner, loan_origin, _)) => {
                let mut a: usize = 0;
                while a < args.len()
                    invariant
                        a <= args.len(),
                        facts == typed.facts(),
                        symbols == typed.symbol_facts(),
                        o == typed.ownership(),
                        params == signature.params@,
                        b < loans.len(),
                        loans.len() == args.len(),
                        taken == call_loans_view(loans@),
                        taken[b as int] == Some((*owner, loan_origin@, loans@[b as int]->Some_0.2)),
                        bound == bound_views(args@),
                        fs == arg_facts@,
                        co == origin_view(call_origin),
                        within(bound, arg_facts.len() as int),
                        loan_sources(facts, symbols, o, resolution, params, bound, fs, callee@, co, n as nat)
                            == Ok::<Seq<Option<CallLoan>>, TypecheckErrorView>(taken),
                        n == (if params.len() < bound.len() { params.len() } else { bound.len() }),
                        loans_scan(resolution, bound, fs, taken, callee@, co, b as nat) == Ok::<
                            (),
                            TypecheckErrorView,
                        >(()),
                        touch_scan(resolution, bound, fs, taken, callee@, co, b as int, a as nat)
                            == Ok::<(), TypecheckErrorView>(()),
                    decreases args.len() - a,
                {
                    let same_owner = match &loans[a] {
                        Some((other, _, _)) => *other == *owner,
                        None => false,
                    };
                    proof {
                        assert(bound[a as int] == args@[a as int]@);
                        assert(within(seq![args@[a as int]@], arg_facts.len() as int)) by {
                            assert(seq![args@[a as int]@][0] == bound[a as int]);
                        }
                    }
                    if a != b && !same_owner && bound_arg_references_symbol(
                        resolution,
                        arg_facts,
                        &args[a],
                        *owner,
                    ) {
                        let at = match either_origin(node_origin_for_bound_arg(arg_facts, &args[a]), &call_origin) {
                            Some(x) => x,
                            None => loan_origin.copy(),
                        };
                        let mut message = owned("call to '");
                        push_text(&mut message, callee);
                        push_text(
                            &mut message,
                            "' accesses an owner in another argument while it is borrowed for a [bor] parameter",
                        );
                        let e = TypecheckError::with_origin(
                            TypecheckErrorKind::BorrowConflict,
                            message.as_str(),
                            at,
                        ).with_related_origin(loan_origin.copy(), "call-site borrow created here");
                        proof {
                            assert(e@.related =~= seq![
                                (loan_origin@, "call-site borrow created here"@),
                            ]);
                            assert(touches_loaned_owner(resolution, bound, fs, taken, b as int, a as int));
                            assert(e@ == touched_owner_error(
                                fs,
                                bound,
                                callee@,
                                co,
                                loan_origin@,
                                a as int,
                            ));
                            assert(touch_scan(resolution, bound, fs, taken, callee@, co, b as int, (a + 1) as nat)
                                == Err::<(), TypecheckErrorView>(e@));
                            lemma_touch_stop(
                                resolution,
                                bound,
                                fs,
                                taken,
                                callee@,
                                co,
                                b as int,
                                (a + 1) as nat,
                                args.len() as nat,
                            );
                            assert(loans_scan(resolution, bound, fs, taken, callee@, co, (b + 1) as nat)
                                == Err::<(), TypecheckErrorView>(e@));
                            lemma_scan_stop(
                                resolution,
                                bound,
                                fs,
                                taken,
                                callee@,
                                co,
                                (b + 1) as nat,
                                args.len() as nat,
                            );
                        }
                        return Err(e);
                    }
                    a = a + 1;
                }
            },
            None => {
                proof {
                    lemma_untaken_touches_nothing(
                        resolution,
                        bound,
                        fs,
                        taken,
                        callee@,
                        co,
                        b as int,
                        bound.len(),
                    );
                }
            },
        }
        b = b + 1;
    }
    Ok(())
}

/// The mutex binding a bare identifier argument names, if it names one.
pub open spec fn mutex_handle(
    symbols: Map<crate::ids::SymbolId, crate::model::TypedSymbol>,
    resolution: &Resolution,
    f: CallArgFacts,
) -> Option<SymbolId> {
    match named_symbol(resolution, f) {
        Some(s) => {
            if symbols.contains_key(s) && symbols[s].is_mutex {
                Some(s)
            } else {
                None
            }
        },
        None => None,
    }
}

/// The argument bound directly to parameter `index`, if any.
pub open spec fn direct_arg_at(bound: Seq<BoundArgView>, index: usize) -> Option<usize> {
    if index < bound.len() {
        direct_arg(bound[index as int])
    } else {
        None
    }
}

/// The diagnostic for forwarding a mutex handle to a mutex parameter
/// inside a deferred block.
pub open spec fn deferred_forward_error(
    callee: Seq<char>,
    index: usize,
    origin: Option<SyntaxOriginView>,
) -> TypecheckErrorView {
    error_at(
        TypecheckErrorKind::Unsupported,
        "mutex handles cannot be forwarded to [mux] parameter "@ + crate::text::decimal_text(
            index as nat,
        ) + " of '"@ + callee
            + "' inside dfr/edf in V3; delayed mutex guard effects are not modeled"@,
        origin,
    )
}

/// The first of the mutex parameters at positions `keys[k..]` that is
/// handed a mutex handle directly, if any.
pub open spec fn first_forwarded_mutex(
    symbols: Map<crate::ids::SymbolId, crate::model::TypedSymbol>,
    resolution: &Resolution,
    keys: Seq<usize>,
    bound: Seq<BoundArgView>,
    args: Seq<CallArgFacts>,
    k: int,
) -> Option<(usize, usize)>
    decreases keys.len() - k,
{
    if k < 0 || k >= keys.len() {
        None
    } else {
        match direct_arg_at(bound, keys[k]) {
            Some(a) => {
                if mutex_handle(symbols, resolution, args[a as int]) is Some {
                    Some((keys[k], a))
                } else {
                    first_forwarded_mutex(symbols, resolution, keys, bound, args, k + 1)
                }
            },
            None => first_forwarded_mutex(symbols, resolution, keys, bound, args, k + 1),
        }
    }
}

/// The mutex handle named by the argument, if it names one.
pub(crate) fn direct_mutex_handle_symbol(typed: &TypedProgram, resolution: &Resolution, f: &CallArgFacts) -> (r: Option<
    SymbolId,
>)
    ensures
        r == mutex_handle(typed.symbol_facts(), resolution, *f),
{
    match symbol_named(resolution, f) {
        Some(s) => match typed.typed_symbol(s) {
            Some(ts) => {
                if ts.is_mutex {
                    Some(s)
                } else {
                    None
                }
            },
            None => None,
        },
        None => None,
    }
}

/// The argument bound directly to parameter `index`, if any.
fn explicit_bound_arg(args: &Vec<BoundCallArg>, index: usize) -> (r: Option<usize>)
    ensures
        r == direct_arg_at(bound_views(args@), index),
{
    if index < args.len() {
        match &args[index] {
            BoundCallArg::Explicit(a) => Some(*a),
            BoundCallArg::VariadicUnpack(a) => Some(*a),
            _ => None,
        }
    } else {
        None
    }
}

/// Refuses, inside a deferred block, forwarding a mutex handle to a mutex
/// parameter of `signature`: the lock effects of a delayed call are not
/// modelled.
pub fn validate_deferred_mutex_argument_forwarding(
    typed: &TypedProgram,
    resolution: &Resolution,
    context: crate::exprs::TypeContext,
    signature: &RoutineType,
    args: &Vec<BoundCallArg>,
    arg_facts: &Vec<CallArgFacts>,
    callee: &str,
) -> (r: Result<(), TypecheckError>)
    requires
        within(bound_views(args@), arg_facts.len() as int),
    ensures
        result_view(r) == (if !context.inside_deferred_block {
            Ok(())
        } else {
            match first_forwarded_mutex(
                typed.symbol_facts(),
                resolution,
                signature.mutex_params.entries().map_values(|e: (usize, ())| e.0),
                bound_views(args@),
                arg_facts@,
                0,
            ) {
                Some((index, a)) => Err(
                    deferred_forward_error(callee@, index, origin_view(arg_facts@[a as int].origin)),
                ),
                None => Ok(()),
            }
        }),
{
    if !context.inside_deferred_block {
        return Ok(());
    }
    let ghost keys = signature.mutex_params.entries().map_values(|e: (usize, ())| e.0);
    let ghost bound = bound_views(args@);
    let mut k: usize = 0;
    while k < signature.mutex_params.len()
        invariant
            context.inside_deferred_block,
            k <= keys.len(),
            keys.len() == signature.mutex_params.entries().len(),
            keys == signature.mutex_params.entries().map_values(|e: (usize, ())| e.0),
            bound == bound_views(args@),
            within(bound, arg_facts.len() as int),
            first_forwarded_mutex(typed.symbol_facts(), resolution, keys, bound, arg_facts@, 0)
                == first_forwarded_mutex(
                typed.symbol_facts(),
                resolution,
                keys,
                bound,
                arg_facts@,
                k as int,
            ),
        decreases keys.len() - k,
    {
        let index = *signature.mutex_params.key_at(k);
        match explicit_bound_arg(args, index) {
            Some(a) => {
                proof {
                    assert(match bound[index as int] {
                        BoundArgView::Explicit(x) => x < arg_facts.len(),
                        BoundArgView::VariadicUnpack(x) => x < arg_facts.len(),
                        BoundArgView::VariadicPack(list) => forall|j: int|
                            0 <= j < list.len() ==> list[j] < arg_facts.len(),
                        BoundArgView::Default => true,
                    });
                }
                if direct_mutex_handle_symbol(typed, resolution, &arg_facts[a]).is_some() {
                    let mut message = owned("mutex handles cannot be forwarded to [mux] parameter ");
                    let digits = crate::text::decimal(index as u64);
                    push_text(&mut message, digits.as_str());
                    push_text(&mut message, " of '");
                    push_text(&mut message, callee);
                    push_text(
                        &mut message,
                        "' inside dfr/edf in V3; delayed mutex guard effects are not modeled",
                    );
                    return Err(
                        TypecheckError::at(
                            TypecheckErrorKind::Unsupported,
                            message.as_str(),
                            crate::ids::copy_origin(&arg_facts[a].origin),
                        ),
                    );
                }
            },
            None => {},
        }
        k = k + 1;
    }
    Ok(())
}

/// A mutex handle already forwarded at this call: the handle, the mutex
/// parameter it went to, and where.
pub type Forwarded = (SymbolId, usize, SyntaxOriginView);

/// Where `symbol` was first forwarded, among `list`.
pub open spec fn forwarded_to(list: Seq<Forwarded>, symbol: SymbolId) -> Option<(usize, SyntaxOriginView)>
    decreases list.len(),
{
    if list.len() == 0 {
        None
    } else if list[0].0 == symbol {
        Some((list[0].1, list[0].2))
    } else {
        forwarded_to(list.drop_first(), symbol)
    }
}

/// The diagnostic for forwarding one mutex handle to two mutex parameters.
pub open spec fn aliased_mutex_error(
    callee: Seq<char>,
    name: Seq<char>,
    first_param: usize,
    param: usize,
    origin: SyntaxOriginView,
    first_origin: SyntaxOriginView,
) -> TypecheckErrorView {
    TypecheckErrorView {
        kind: TypecheckErrorKind::InvalidInput,
        message: "call to '"@ + callee + "' cannot forward mutex handle '"@ + name
            + "' to both [mux] parameter "@ + crate::text::decimal_text(first_param as nat)
            + " and [mux] parameter "@ + crate::text::decimal_text(param as nat)
            + "; aliased mutex parameters can self-deadlock"@,
        origin: Some(origin),
        related: seq![(first_origin, "same mutex handle first forwarded here"@)],
    }
}

/// The diagnostic for forwarding a mutex handle whose lock is held.
pub open spec fn locked_mutex_error(
    callee: Seq<char>,
    name: Seq<char>,
    origin: SyntaxOriginView,
    lock_origin: SyntaxOriginView,
) -> TypecheckErrorView {
    TypecheckErrorView {
        kind: TypecheckErrorKind::InvalidInput,
        message: "call to '"@ + callee + "' cannot synchronously forward mutex handle '"@ + name
            + "' while its lock is active; unlock it before the call"@,
        origin: Some(origin),
        related: seq![(lock_origin, "mutex lock acquired here"@)],
    }
}

/// How a mutex handle is named in a diagnostic.
pub open spec fn handle_name(resolution: &Resolution, symbol: SymbolId) -> Seq<char> {
    if resolution.symbols.as_map().contains_key(symbol) {
        resolution.symbols.as_map()[symbol].name@
    } else {
        "<unknown>"@
    }
}

/// Checking the mutex parameter at position `index`: a mutex handle may go
/// to one mutex parameter only, and, unless the call crosses to a task,
/// not while its lock is held.
pub open spec fn forward_step(
    symbols: Map<crate::ids::SymbolId, crate::model::TypedSymbol>,
    o: OwnershipView,
    resolution: &Resolution,
    bound: Seq<BoundArgView>,
    args: Seq<CallArgFacts>,
    callee: Seq<char>,
    call_origin: Option<SyntaxOriginView>,
    task_target: bool,
    index: usize,
    list: Seq<Forwarded>,
) -> Result<Seq<Forwarded>, TypecheckErrorView> {
    match direct_arg_at(bound, index) {
        None => Ok(list),
        Some(a) => match mutex_handle(symbols, resolution, args[a as int]) {
            None => Ok(list),
            Some(symbol) => {
                let name = handle_name(resolution, symbol);
                let at = or_start(either(origin_view(args[a as int].origin), call_origin));
                match forwarded_to(list, symbol) {
                    Some((first_param, first_origin)) => Err(
                        aliased_mutex_error(callee, name, first_param, index, at, first_origin),
                    ),
                    None => {
                        if !task_target && o.mutex_guards.contains_key(symbol) {
                            Err(locked_mutex_error(callee, name, at, o.mutex_guards[symbol].origin))
                        } else {
                            Ok(list.push((symbol, index, at)))
                        }
                    },
                }
            },
        },
    }
}

/// The handles forwarded to the mutex parameters at `keys[..k]`, or the
/// first diagnostic.
pub open spec fn forward_scan(
    symbols: Map<crate::ids::SymbolId, crate::model::TypedSymbol>,
    o: OwnershipView,
    resolution: &Resolution,
    keys: Seq<usize>,
    bound: Seq<BoundArgView>,
    args: Seq<CallArgFacts>,
    callee: Seq<char>,
    call_origin: Option<SyntaxOriginView>,
    task_target: bool,
    k: nat,
) -> Result<Seq<Forwarded>, TypecheckErrorView>
    decreases k,
{
    if k == 0 {
        Ok(seq![])
    } else {
        match forward_scan(
            symbols,
            o,
            resolution,
            keys,
            bound,
            args,
            callee,
            call_origin,
            task_target,
            (k - 1) as nat,
        ) {
            Ok(list) => forward_step(
                symbols,
                o,
                resolution,
                bound,
                args,
                callee,
                call_origin,
                task_target,
                keys[k - 1],
                list,
            ),
            Err(e) => Err(e),
        }
    }
}

proof fn lemma_forward_stop(
    symbols: Map<crate::ids::SymbolId, crate::model::TypedSymbol>,
    o: OwnershipView,
    resolution: &Resolution,
    keys: Seq<usize>,
    bound: Seq<BoundArgView>,
    args: Seq<CallArgFacts>,
    callee: Seq<char>,
    call_origin: Option<SyntaxOriginView>,
    task_target: bool,
    k: nat,
    m: nat,
)
    requires
        k <= m,
        forward_scan(symbols, o, resolution, keys, bound, args, callee, call_origin, task_target, k)
            is Err,
    ensures
        forward_scan(symbols, o, resolution, keys, bound, args, callee, call_origin, task_target, m)
            == forward_scan(
            symbols,
            o,
            resolution,
            keys,
            bound,
            args,
            callee,
            call_origin,
            task_target,
            k,
        ),
    decreases m - k,
{
    if k < m {
        lemma_forward_stop(
            symbols,
            o,
            resolution,
            keys,
            bound,
            args,
            callee,
            call_origin,
            task_target,
            k,
            (m - 1) as nat,
        );
    }
}

/// The views of the handles forwarded so far.
pub open spec fn forwarded_view(v: Seq<(SymbolId, usize, SyntaxOrigin)>) -> Seq<Forwarded> {
    v.map_values(|x: (SymbolId, usize, SyntaxOrigin)| (x.0, x.1, x.2@))
}

/// Where `symbol` was first forwarded.
fn find_forwarded(list: &Vec<(SymbolId, usize, SyntaxOrigin)>, symbol: SymbolId) -> (r: Option<
    (usize, SyntaxOrigin),
>)
    ensures
        match r {
            Some((p, at)) => forwarded_to(forwarded_view(list@), symbol) == Some((p, at@)),
            None => forwarded_to(forwarded_view(list@), symbol) is None,
        },
{
    let ghost v = forwarded_view(list@);
    let mut j: usize = 0;
    proof {
        assert(v.skip(0) =~= v);
    }
    while j < list.len()
        invariant
            j <= list.len(),
            v == forwarded_view(list@),
            forwarded_to(v, symbol) == forwarded_to(v.skip(j as int), symbol),
        decreases list.len() - j,
    {
        proof {
            assert(v.skip(j as int).drop_first() =~= v.skip(j + 1));
            assert(v.skip(j as int)[0] == v[j as int]);
        }
        if list[j].0 == symbol {
            return Some((list[j].1, list[j].2.copy()));
        }
        j = j + 1;
    }
    proof {
        assert(v.skip(j as int).len() == 0);
    }
    None
}

/// Checks the mutex handles a call to `callee` forwards to the mutex
/// parameters of `signature`: a handle goes to one mutex parameter only,
/// and, unless the call crosses to a task, not while its lock is held.
pub fn validate_mutex_argument_forwarding(
    typed: &TypedProgram,
    resolution: &Resolution,
    signature: &RoutineType,
    args: &Vec<BoundCallArg>,
    arg_facts: &Vec<CallArgFacts>,
    callee: &str,
    call_origin: Option<SyntaxOrigin>,
    processor_task_target: bool,
) -> (r: Result<(), TypecheckError>)
    requires
        within(bound_views(args@), arg_facts.len() as int),
    ensures
        match forward_scan(
            typed.symbol_facts(),
            typed.ownership(),
            resolution,
            signature.mutex_params.entries().map_values(|e: (usize, ())| e.0),
            bound_views(args@),
            arg_facts@,
            callee@,
            origin_view(call_origin),
            processor_task_target,
            signature.mutex_params.entries().len(),
        ) {
            Ok(_) => r is Ok,
            Err(e) => r matches Err(x) && x@ == e,
        },
{
    let ghost keys = signature.mutex_params.entries().map_values(|e: (usize, ())| e.0);
    let ghost bound = bound_views(args@);
    let ghost co = origin_view(call_origin);
    let ghost symbols = typed.symbol_facts();
    let ghost o = typed.ownership();
    let mut forwarded: Vec<(SymbolId, usize, SyntaxOrigin)> = Vec::new();
    proof {
        assert(forwarded_view(forwarded@) =~= seq![]);
    }
    let mut k: usize = 0;
    while k < signature.mutex_params.len()
        invariant
            k <= keys.len(),
            keys.len() == signature.mutex_params.entries().len(),
            keys == signature.mutex_params.entries().map_values(|e: (usize, ())| e.0),
            bound == bound_views(args@),
            co == origin_view(call_origin),
            symbols == typed.symbol_facts(),
            o == typed.ownership(),
            within(bound, arg_facts.len() as int),
            forward_scan(
                symbols,
                o,
                resolution,
                keys,
                bound,
                arg_facts@,
                callee@,
                co,
                processor_task_target,
                k as nat,
            ) == Ok::<Seq<Forwarded>, TypecheckErrorView>(forwarded_view(forwarded@)),
        decreases keys.len() - k,
    {
        let index = *signature.mutex_params.key_at(k);
        let ghost before = forwarded@;
        let a = match explicit_bound_arg(args, index) {
            Some(a) => a,
            None => {
                k = k + 1;
                continue;
            },
        };
        proof {
            assert(match bound[index as int] {
                BoundArgView::Explicit(x) => x < arg_facts.len(),
                BoundArgView::VariadicUnpack(x) => x < arg_facts.len(),
                BoundArgView::VariadicPack(list) => forall|j: int|
                    0 <= j < list.len() ==> list[j] < arg_facts.len(),
                BoundArgView::Default => true,
            });
        }
        let symbol = match direct_mutex_handle_symbol(typed, resolution, &arg_facts[a]) {
            Some(s) => s,
            None => {
                k = k + 1;
                continue;
            },
        };
        let name = match resolution.symbol(symbol) {
            Some(declaration) => owned(declaration.name.as_str()),
            None => owned("<unknown>"),
        };
        let at = match either_origin(crate::ids::copy_origin(&arg_facts[a].origin), &call_origin) {
            Some(x) => x,
            None => SyntaxOrigin { file: None, line: 1, column: 1, length: 1 },
        };
        match find_forwarded(&forwarded, symbol) {
            Some((first_param, first_origin)) => {
                let mut message = owned("call to '");
                push_text(&mut message, callee);
                push_text(&mut message, "' cannot forward mutex handle '");
                push_text(&mut message, name.as_str());
                push_text(&mut message, "' to both [mux] parameter ");
                let first_digits = crate::text::decimal(first_param as u64);
                push_text(&mut message, first_digits.as_str());
                push_text(&mut message, " and [mux] parameter ");
                let digits = crate::text::decimal(index as u64);
                push_text(&mut message, digits.as_str());
                push_text(&mut message, "; aliased mutex parameters can self-deadlock");
                let ghost first_view = first_origin@;
                let e = TypecheckError::with_origin(
                    TypecheckErrorKind::InvalidInput,
                    message.as_str(),
                    at,
                ).with_related_origin(first_origin, "same mutex handle first forwarded here");
                proof {
                    assert(e@.related =~= seq![
                        (first_view, "same mutex handle first forwarded here"@),
                    ]);
                    lemma_forward_stop(
                        symbols,
                        o,
                        resolution,
                        keys,
                        bound,
                        arg_facts@,
                        callee@,
                        co,
                        processor_task_target,
                        (k + 1) as nat,
                        keys.len(),
                    );
                }
                return Err(e);
            },
            None => {},
        }
        if !processor_task_target {
            match typed.active_mutex_guard(symbol) {
                Some(active) => {
                    let mut message = owned("call to '");
                    push_text(&mut message, callee);
                    push_text(&mut message, "' cannot synchronously forward mutex handle '");
                    push_text(&mut message, name.as_str());
                    push_text(&mut message, "' while its lock is active; unlock it before the call");
                    let e = TypecheckError::with_origin(
                        TypecheckErrorKind::InvalidInput,
                        message.as_str(),
                        at,
                    ).with_related_origin(active.origin.copy(), "mutex lock acquired here");
                    proof {
                        assert(e@.related =~= seq![
                            (active.origin@, "mutex lock acquired here"@),
                        ]);
                        lemma_forward_stop(
                            symbols,
                            o,
                            resolution,
                            keys,
                            bound,
                            arg_facts@,
                            callee@,
                            co,
                            processor_task_target,
                            (k + 1) as nat,
                            keys.len(),
                        );
                    }
                    return Err(e);
                },
                None => {},
            }
        }
        let ghost at_view = at@;
        forwarded.push((symbol, index, at));
        proof {
            assert(forwarded_view(forwarded@) =~= forwarded_view(before).push((symbol, index, at_view)));
        }
        k = k + 1;
    }
    Ok(())
}

/// What checking an argument of type `actual` to `callee` comes to: an
/// argument may not embed an eventual in a composite value, and an
/// eventual may not pass through a generic parameter; both are refused at
/// the argument, or else at the call.
pub open spec fn eventual_argument_outcome(
    facts: FactsView,
    symbols: Map<crate::ids::SymbolId, crate::model::TypedSymbol>,
    origin: Option<SyntaxOriginView>,
    actual: CheckedTypeId,
    generic_parameter: bool,
    callee: Seq<char>,
) -> Result<(), TypecheckErrorView> {
    if crate::shapes::nests_eventual(facts, symbols, actual) {
        Err(
            error_at(
                TypecheckErrorKind::Ownership,
                "argument to '"@ + callee + "'"@
                    + " cannot embed the internal eventual type in a composite value in V3; transfer or await the eventual directly"@,
                origin,
            ),
        )
    } else if generic_parameter && type_at(facts, actual) matches Some(
        CheckedTypeView::Eventual { .. },
    ) {
        Err(
            error_at(
                TypecheckErrorKind::Ownership,
                "call to '"@ + callee
                    + "' cannot pass an internal eventual through a generic parameter in V3; await it before the call"@,
                origin,
            ),
        )
    } else {
        Ok(())
    }
}

/// Checks an argument of type `actual`, written at `arg_origin`, of a call
/// to `callee` made at `call_origin`; `generic_parameter` says whether its
/// parameter's type is generic.
pub fn validate_eventual_call_argument(
    typed: &TypedProgram,
    arg_origin: Option<SyntaxOrigin>,
    actual: CheckedTypeId,
    generic_parameter: bool,
    callee: &str,
    call_origin: Option<SyntaxOrigin>,
) -> (r: Result<(), TypecheckError>)
    ensures
        result_view(r) == eventual_argument_outcome(
            typed.facts(),
            typed.symbol_facts(),
            either(origin_view(arg_origin), origin_view(call_origin)),
            actual,
            generic_parameter,
            callee@,
        ),
{
    let origin = either_origin(arg_origin, &call_origin);
    let mut surface = owned("argument to '");
    push_text(&mut surface, callee);
    push_text(&mut surface, "'");
    match crate::rejections::reject_nested_eventual_value(
        typed,
        actual,
        crate::ids::copy_origin(&origin),
        surface.as_str(),
    ) {
        Ok(()) => {},
        Err(e) => {
            return Err(e);
        },
    }
    if generic_parameter {
        match typed.type_table().get(actual) {
            Some(crate::types::CheckedType::Eventual { .. }) => {
                let mut message = owned("call to '");
                push_text(&mut message, callee);
                push_text(
                    &mut message,
                    "' cannot pass an internal eventual through a generic parameter in V3; await it before the call",
                );
                return Err(TypecheckError::at(TypecheckErrorKind::Ownership, message.as_str(), origin));
            },
            _ => {},
        }
    }
    Ok(())
}

} // verus!
