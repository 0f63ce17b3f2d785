//! The state of the linear-resource analysis: which `lin` bindings in scope
//! still hold their resource, releasing one, and refusing to leave a scope
//! or path while one is still held.
use crate::apparent::result_view;
use crate::errors::{TypecheckError, TypecheckErrorKind, TypecheckErrorView};
use crate::ids::{copy_origin, SymbolId, SyntaxOrigin, SyntaxOriginView};
use crate::rejections::origin_view;
use crate::sorted_map::SortedMap;
use crate::text::{owned, push_text};
use vstd::prelude::*;

verus! {

/// One linear binding: its name, where it was acquired, and whether it
/// still holds its resource.
#[derive(Debug)]
pub struct Slot {
    pub name: String,
    pub acquired: Option<SyntaxOrigin>,
    pub held: bool,
}

/// Where in a routine the analysis stands: the bindings that existed when
/// the innermost enclosing loop began, and whether it is inside a deferred
/// block.
pub struct LinearContext {
    pub loop_entry: Option<SortedMap<SymbolId, ()>>,
    pub in_deferred: bool,
}

/// A linear-analysis diagnostic with `message`, at `origin` when known.
pub open spec fn linear_error(message: Seq<char>, origin: Option<SyntaxOriginView>) -> TypecheckErrorView {
    TypecheckErrorView { kind: TypecheckErrorKind::InvalidInput, message, origin, related: seq![] }
}

/// A linear-analysis diagnostic with `message`, at `origin` when known.
pub fn error_at(message: String, origin: Option<SyntaxOrigin>) -> (r: TypecheckError)
    ensures
        r@ == linear_error(message@, origin_view(origin)),
{
    TypecheckError::at(TypecheckErrorKind::InvalidInput, message.as_str(), origin)
}

/// What releasing the resource of the binding in `slot` comes to: an error
/// if it was already released or the release stands in a deferred block,
/// which runs where a failed release has no caller to report to.
pub open spec fn release_error(slot: Slot, in_deferred: bool) -> Option<TypecheckErrorView> {
    if !slot.held {
        Some(linear_error("'"@ + slot.name@ + "' has already been released"@, origin_view(slot.acquired)))
    } else if in_deferred {
        Some(
            linear_error(
                "'"@ + slot.name@
                    + "' cannot be released inside a deferred block: the block runs at scope exit, where a failed release has no caller to report to"@,
                origin_view(slot.acquired),
            ),
        )
    } else {
        None
    }
}

/// Releases the resource `symbol` holds, by a consuming call or `[fin]`.
pub fn consume(context: &LinearContext, state: &mut SortedMap<SymbolId, Slot>, symbol: SymbolId) -> (r:
    Result<(), TypecheckError>)
    requires
        old(state).as_map().contains_key(symbol),
    ensures
        match release_error(old(state).as_map()[symbol], context.in_deferred) {
            Some(e) => result_view(r) == Err::<(), TypecheckErrorView>(e) && *final(state) == *old(state),
            None => r is Ok && final(state).as_map() == old(state).as_map().insert(
                symbol,
                Slot { held: false, ..old(state).as_map()[symbol] },
            ),
        },
{
    let slot = match state.get(&symbol) {
        Some(s) => s,
        None => {
            return Ok(());
        },
    };
    if !slot.held {
        let mut message = owned("'");
        push_text(&mut message, slot.name.as_str());
        push_text(&mut message, "' has already been released");
        return Err(error_at(message, copy_origin(&slot.acquired)));
    }
    if context.in_deferred {
        let mut message = owned("'");
        push_text(&mut message, slot.name.as_str());
        push_text(
            &mut message,
            "' cannot be released inside a deferred block: the block runs at scope exit, where a failed release has no caller to report to",
        );
        return Err(error_at(message, copy_origin(&slot.acquired)));
    }
    let ghost before = state.as_map();
    match state.remove(&symbol) {
        Some(mut released) => {
            released.held = false;
            state.insert(symbol, released);
            proof {
                assert(state.as_map() =~= before.insert(symbol, Slot { held: false, ..before[symbol] }));
            }
        },
        None => {},
    }
    Ok(())
}

/// Whether the entry at position `i` of `entries` is the first that still
/// holds its resource and is not in `exempt`.
pub open spec fn first_held_at(entries: Seq<(SymbolId, Slot)>, exempt: Set<SymbolId>, i: int) -> bool {
    &&& 0 <= i < entries.len()
    &&& entries[i].1.held
    &&& !exempt.contains(entries[i].0)
    &&& forall|j: int|
        0 <= j < i ==> !(#[trigger] entries[j].1.held && !exempt.contains(entries[j].0))
}

/// Refuses the first binding, in symbol order, that still holds its
/// resource and is not in `exempt`, with the message and position
/// `message` gives for it.
pub fn reject_first_held_in(
    state: &SortedMap<SymbolId, Slot>,
    exempt: &SortedMap<SymbolId, ()>,
    message: impl Fn(&Slot) -> (String, Option<SyntaxOrigin>),
) -> (r: Result<(), TypecheckError>)
    requires
        forall|s: &Slot| message.requires((s,)),
    ensures
        match r {
            Ok(()) => forall|i: int|
                0 <= i < state.entries().len() ==> !(#[trigger] state.entries()[i].1.held
                    && !exempt.as_map().dom().contains(state.entries()[i].0)),
            Err(e) => exists|i: int, out: (String, Option<SyntaxOrigin>)|
                first_held_at(state.entries(), exempt.as_map().dom(), i) && message.ensures(
                    (&state.entries()[i].1,),
                    out,
                ) && e@ == linear_error(out.0@, origin_view(out.1)),
        },
{
    let mut i: usize = 0;
    while i < state.len()
        invariant
            i <= state.entries().len(),
            forall|s: &Slot| message.requires((s,)),
            forall|j: int|
                0 <= j < i ==> !(#[trigger] state.entries()[j].1.held && !exempt.as_map().dom().contains(
                    state.entries()[j].0,
                )),
        decreases state.entries().len() - i,
    {
        let slot = state.value_at(i);
        if slot.held && !exempt.contains_key(state.key_at(i)) {
            let out = message(slot);
            let (text, origin) = out;
            proof {
                assert(first_held_at(state.entries(), exempt.as_map().dom(), i as int));
            }
            return Err(error_at(text, origin));
        }
        i = i + 1;
    }
    Ok(())
}

/// Refuses the first binding, in symbol order, that still holds its
/// resource, with the message and position `message` gives for it.
pub fn reject_any_held(
    state: &SortedMap<SymbolId, Slot>,
    message: impl Fn(&Slot) -> (String, Option<SyntaxOrigin>),
) -> (r: Result<(), TypecheckError>)
    requires
        forall|s: &Slot| message.requires((s,)),
    ensures
        match r {
            Ok(()) => forall|i: int|
                0 <= i < state.entries().len() ==> !#[trigger] state.entries()[i].1.held,
            Err(e) => exists|i: int, out: (String, Option<SyntaxOrigin>)|
                first_held_at(state.entries(), Set::empty(), i) && message.ensures(
                    (&state.entries()[i].1,),
                    out,
                ) && e@ == linear_error(out.0@, origin_view(out.1)),
        },
{
    let nothing_exempt: SortedMap<SymbolId, ()> = SortedMap::new();
    proof {
        assert(nothing_exempt.as_map().dom() =~= Set::<SymbolId>::empty());
    }
    reject_first_held_in(state, &nothing_exempt, message)
}

/// Refuses the first binding that still holds its resource when a routine
/// ends; every binding counts, whether it existed at `entry` or not.
pub fn reject_first_held(
    state: &SortedMap<SymbolId, Slot>,
    entry: &SortedMap<SymbolId, ()>,
    message: impl Fn(&Slot) -> (String, Option<SyntaxOrigin>),
) -> (r: Result<(), TypecheckError>)
    requires
        forall|s: &Slot| message.requires((s,)),
    ensures
        match r {
            Ok(()) => forall|i: int|
                0 <= i < state.entries().len() ==> !#[trigger] state.entries()[i].1.held,
            Err(e) => exists|i: int, out: (String, Option<SyntaxOrigin>)|
                first_held_at(state.entries(), Set::empty(), i) && message.ensures(
                    (&state.entries()[i].1,),
                    out,
                ) && e@ == linear_error(out.0@, origin_view(out.1)),
        },
{
    reject_any_held(state, message)
}

/// A resource is released once: after a release went through, releasing
/// the same binding again is refused as already released, inside a
/// deferred block or not.
pub proof fn law_release_happens_once(slot: Slot, in_deferred: bool, again_deferred: bool)
    requires
        release_error(slot, in_deferred) is None,
    ensures
        release_error(Slot { held: false, ..slot }, again_deferred) == Some(
            linear_error("'"@ + slot.name@ + "' has already been released"@, origin_view(slot.acquired)),
        ),
{
}

/// The first symbol of `captured`, from position `i` on in symbol order,
/// that the analysis tracks as a linear binding.
pub open spec fn first_tracked(captured: Seq<(SymbolId, ())>, state: Map<SymbolId, Slot>, i: int) -> Option<
    SymbolId,
>
    decreases captured.len() - i,
{
    if i < 0 || i >= captured.len() {
        None
    } else if state.contains_key(captured[i].0) {
        Some(captured[i].0)
    } else {
        first_tracked(captured, state, i + 1)
    }
}

/// The diagnostic for capturing the linear binding in `slot`.
pub open spec fn capture_error(slot: Slot) -> TypecheckErrorView {
    linear_error(
        "'"@ + slot.name@
            + "' is a linear resource and cannot be captured: the release obligation would leave the scope that owes it"@,
        origin_view(slot.acquired),
    )
}

/// Refuses a closure, spawn or nested routine that captures one of the
/// symbols `captured` when it is a linear binding: the release obligation
/// would leave the scope that owes it. The first such symbol is named.
pub fn reject_linear_capture(captured: &SortedMap<SymbolId, ()>, state: &SortedMap<SymbolId, Slot>) -> (r:
    Result<(), TypecheckError>)
    ensures
        result_view(r) == match first_tracked(captured.entries(), state.as_map(), 0) {
            Some(s) => Err(capture_error(state.as_map()[s])),
            None => Ok(()),
        },
{
    let ghost e = captured.entries();
    let mut i: usize = 0;
    while i < captured.len()
        invariant
            e == captured.entries(),
            i <= e.len(),
            first_tracked(e, state.as_map(), 0) == first_tracked(e, state.as_map(), i as int),
        decreases e.len() - i,
    {
        let symbol = *captured.key_at(i);
        match state.get(&symbol) {
            Some(slot) => {
                let mut message = owned("'");
                push_text(&mut message, slot.name.as_str());
                push_text(
                    &mut message,
                    "' is a linear resource and cannot be captured: the release obligation would leave the scope that owes it",
                );
                return Err(error_at(message, copy_origin(&slot.acquired)));
            },
            None => {},
        }
        i = i + 1;
    }
    Ok(())
}

/// The diagnostic for a binding whose release differs between the paths
/// out of a `when`.
pub open spec fn disagreement_error(slot: Slot) -> TypecheckErrorView {
    linear_error(
        "'"@ + slot.name@
            + "' is released on some branches of this 'when' but not others; every path must agree on whether a linear resource has been released"@,
        origin_view(slot.acquired),
    )
}

/// Whether the state `other` agrees with the binding `entry` of another
/// path: it tracks the binding and it is released on both or on neither.
pub open spec fn agrees(entry: (SymbolId, Slot), other: Map<SymbolId, Slot>) -> bool {
    other.contains_key(entry.0) && other[entry.0].held == entry.1.held
}

/// The first disagreement between the bindings `first` of the first path
/// out of a `when` and the states `others` of the other paths, looking at
/// path `j` from binding `k` on and then at the later paths.
pub open spec fn disagreement_from(
    first: Seq<(SymbolId, Slot)>,
    others: Seq<Map<SymbolId, Slot>>,
    j: int,
    k: int,
) -> Option<Slot>
    decreases others.len() - j, first.len() - k,
{
    if j < 0 || j >= others.len() || k < 0 {
        None
    } else if k >= first.len() {
        disagreement_from(first, others, j + 1, 0)
    } else if !agrees(first[k], others[j]) {
        Some(first[k].1)
    } else {
        disagreement_from(first, others, j, k + 1)
    }
}

/// The states of the paths out of a `when` as maps.
pub open spec fn path_maps(paths: Seq<SortedMap<SymbolId, Slot>>) -> Seq<Map<SymbolId, Slot>> {
    paths.map_values(|p: SortedMap<SymbolId, Slot>| p.as_map())
}

/// Joins the states of the paths out of a `when` that fall through: none
/// when every path diverges; otherwise every other path must agree with
/// the first on which bindings are released, and the first path's state
/// goes on. The first disagreement, in path and symbol order, is refused.
pub fn join_when_paths(paths: Vec<SortedMap<SymbolId, Slot>>) -> (r: Result<
    Option<SortedMap<SymbolId, Slot>>,
    TypecheckError,
>)
    ensures
        paths@.len() == 0 ==> r matches Ok(None),
        paths@.len() > 0 ==> match disagreement_from(
            paths@[0].entries(),
            path_maps(paths@).drop_first(),
            0,
            0,
        ) {
            Some(slot) => r matches Err(e) && e@ == disagreement_error(slot),
            None => r == Ok::<Option<SortedMap<SymbolId, Slot>>, TypecheckError>(Some(paths@[0])),
        },
{
    if paths.len() == 0 {
        return Ok(None);
    }
    let ghost first = paths@[0].entries();
    let ghost others = path_maps(paths@).drop_first();
    let mut j: usize = 1;
    while j < paths.len()
        invariant
            1 <= j <= paths@.len(),
            first == paths@[0].entries(),
            others == path_maps(paths@).drop_first(),
            disagreement_from(first, others, 0, 0) == disagreement_from(first, others, j - 1, 0),
        decreases paths@.len() - j,
    {
        let mut k: usize = 0;
        while k < paths[0].len()
            invariant
                1 <= j < paths@.len(),
                k <= first.len(),
                first == paths@[0].entries(),
                others == path_maps(paths@).drop_first(),
                disagreement_from(first, others, 0, 0) == disagreement_from(first, others, j - 1, k as int),
            decreases first.len() - k,
        {
            let symbol = *paths[0].key_at(k);
            let slot = paths[0].value_at(k);
            proof {
                assert(others[j - 1] == paths@[j as int].as_map());
            }
            let agreed = match paths[j].get(&symbol) {
                Some(peer) => peer.held == slot.held,
                None => false,
            };
            if !agreed {
                let mut message = owned("'");
                push_text(&mut message, slot.name.as_str());
                push_text(
                    &mut message,
                    "' is released on some branches of this 'when' but not others; every path must agree on whether a linear resource has been released",
                );
                return Err(error_at(message, copy_origin(&slot.acquired)));
            }
            k = k + 1;
        }
        j = j + 1;
    }
    let mut paths = paths;
    Ok(Some(paths.remove(0)))
}

/// The diagnostic for releasing inside a loop the binding in `slot`,
/// acquired before it.
pub open spec fn loop_release_error(slot: Slot) -> TypecheckErrorView {
    linear_error(
        "'"@ + slot.name@
            + "' is released inside a loop, so a second iteration would release it again; move the release after the loop"@,
        origin_view(slot.acquired),
    )
}

/// The first binding, from position `k` of the state `before` a loop on,
/// that held its resource before the loop and is released after its body.
pub open spec fn released_in_loop_from(
    before: Seq<(SymbolId, Slot)>,
    after: Map<SymbolId, Slot>,
    k: int,
) -> Option<Slot>
    decreases before.len() - k,
{
    if k < 0 || k >= before.len() {
        None
    } else if before[k].1.held && after.contains_key(before[k].0) && !after[before[k].0].held {
        Some(before[k].1)
    } else {
        released_in_loop_from(before, after, k + 1)
    }
}

/// Refuses a loop body that releases a binding acquired before the loop:
/// a second iteration would release it again. `before` is the state when
/// the loop begins and `after` the state after one pass of its body.
pub fn reject_release_in_loop(
    before: &SortedMap<SymbolId, Slot>,
    after: &SortedMap<SymbolId, Slot>,
) -> (r: Result<(), TypecheckError>)
    ensures
        result_view(r) == match released_in_loop_from(before.entries(), after.as_map(), 0) {
            Some(slot) => Err(loop_release_error(slot)),
            None => Ok(()),
        },
{
    let mut k: usize = 0;
    while k < before.len()
        invariant
            k <= before.entries().len(),
            released_in_loop_from(before.entries(), after.as_map(), 0) == released_in_loop_from(
                before.entries(),
                after.as_map(),
                k as int,
            ),
        decreases before.entries().len() - k,
    {
        let symbol = *before.key_at(k);
        let slot = before.value_at(k);
        let released = match after.get(&symbol) {
            Some(later) => !later.held,
            None => false,
        };
        if slot.held && released {
            let mut message = owned("'");
            push_text(&mut message, slot.name.as_str());
            push_text(
                &mut message,
                "' is released inside a loop, so a second iteration would release it again; move the release after the loop",
            );
            return Err(error_at(message, copy_origin(&slot.acquired)));
        }
        k = k + 1;
    }
    Ok(())
}

/// The paths out of a `when` join exactly when every later path agrees with
/// the first on every binding the first tracks.
pub proof fn law_when_paths_must_agree(first: Seq<(SymbolId, Slot)>, others: Seq<Map<SymbolId, Slot>>)
    ensures
        disagreement_from(first, others, 0, 0) is None <==> forall|j: int, k: int|
            0 <= j < others.len() && 0 <= k < first.len() ==> #[trigger] agrees(first[k], others[j]),
{
    lemma_disagreement_from(first, others, 0, 0);
}

/// From path `j` and binding `k` on, no disagreement is found exactly when
/// the rest of path `j` and every later path agree.
proof fn lemma_disagreement_from(first: Seq<(SymbolId, Slot)>, others: Seq<Map<SymbolId, Slot>>, j: int, k: int)
    requires
        0 <= j,
        0 <= k,
    ensures
        disagreement_from(first, others, j, k) is None <==> (forall|k2: int|
            k <= k2 < first.len() && j < others.len() ==> #[trigger] agrees(first[k2], others[j])) && (forall|
            j2: int,
            k2: int,
        | j < j2 < others.len() && 0 <= k2 < first.len() ==> #[trigger] agrees(first[k2], others[j2])),
    decreases others.len() - j, first.len() - k,
{
    if j >= others.len() {
    } else if k >= first.len() {
        lemma_disagreement_from(first, others, j + 1, 0);
        assert forall|j2: int, k2: int|
            j < j2 < others.len() && 0 <= k2 < first.len() && disagreement_from(first, others, j, k) is None implies #[trigger] agrees(first[k2], others[j2]) by {
            if j2 > j + 1 {
            }
        }
    } else if !agrees(first[k], others[j]) {
    } else {
        lemma_disagreement_from(first, others, j, k + 1);
        if disagreement_from(first, others, j, k) is None {
            assert forall|k2: int| k <= k2 < first.len() && j < others.len() implies #[trigger] agrees(first[k2], others[j]) by {
                if k2 > k {
                }
            }
        }
    }
}

/// A loop body passes exactly when no binding that held its resource before
/// the loop is released after the body.
pub proof fn law_loop_keeps_outer_resources(before: Seq<(SymbolId, Slot)>, after: Map<SymbolId, Slot>)
    ensures
        released_in_loop_from(before, after, 0) is None <==> forall|k: int|
            0 <= k < before.len() && #[trigger] before[k].1.held && after.contains_key(before[k].0)
                ==> after[before[k].0].held,
{
    lemma_released_in_loop_from(before, after, 0);
}

/// `law_loop_keeps_outer_resources` from position `k` on.
proof fn lemma_released_in_loop_from(before: Seq<(SymbolId, Slot)>, after: Map<SymbolId, Slot>, k: int)
    requires
        0 <= k,
    ensures
        released_in_loop_from(before, after, k) is None <==> forall|k2: int|
            k <= k2 < before.len() && #[trigger] before[k2].1.held && after.contains_key(before[k2].0)
                ==> after[before[k2].0].held,
    decreases before.len() - k,
{
    if k < before.len() {
        lemma_released_in_loop_from(before, after, k + 1);
    }
}

} // verus!
