//! Questions about what a type holds: a full channel or eventual embedded in
//! an aggregate, a non-thread-safe shared pointer, a borrow, a finalizing
//! type. Each walks the type's parts, shell types' apparent types and named
//! types' declarations, never visiting a type twice on one path.
use crate::ids::SymbolId;
use crate::model::{TypedProgram, TypedSymbol};
use crate::ownership::FactsView;
use crate::sorted_map::{Duplicate, SortedMap};
use crate::types::{CheckedType, CheckedTypeId, CheckedTypeView, DeclaredTypeKind};
use vstd::prelude::*;
use vstd::set_lib::{lemma_int_range, set_int_range};

verus! {

/// What a walk over a type's parts looks for.
#[derive(Clone, Copy, Debug, PartialEq, Eq, Structural)]
pub enum TypeQuery {
    /// A full channel or eventual held inside another type.
    FullChannel,
    /// A shared or weak pointer that is not thread-safe.
    SharedPointer,
    /// A borrowed type.
    Borrowed,
    /// A type whose declaration claims custom finalization.
    Fin,
    /// An eventual, looking through type arguments but not through the
    /// declarations of named types.
    Eventual,
    /// A value that moves rather than copies when ownership is transferred.
    Moves,
    /// A generic parameter, looking through type arguments and routine
    /// signatures but not through the declarations of named types.
    GenericParameter,
}

/// Whether a walk for `query` follows a named type to the type it is
/// declared as.
pub open spec fn follows_declarations(query: TypeQuery) -> bool {
    query != TypeQuery::Eventual && query != TypeQuery::GenericParameter
}

/// Whether a walk for `query` looks into routine signatures.
pub open spec fn looks_into_routines(query: TypeQuery) -> bool {
    query == TypeQuery::FullChannel || query == TypeQuery::Eventual || query
        == TypeQuery::GenericParameter
}

/// Every type id.
pub open spec fn all_type_ids() -> Set<CheckedTypeId> {
    Set::new(|i: CheckedTypeId| true)
}

/// There are finitely many type ids.
pub proof fn lemma_all_type_ids_finite()
    ensures
        all_type_ids().finite(),
{
    lemma_int_range(0, usize::MAX + 1);
    let to_id = |x: int| CheckedTypeId(x as usize);
    set_int_range(0, usize::MAX + 1).lemma_map_finite(to_id);
    assert forall|c: CheckedTypeId| #[trigger] all_type_ids().contains(c) implies set_int_range(
        0,
        usize::MAX + 1,
    ).map(to_id).contains(c) by {
        let x = c.0 as int;
        assert(set_int_range(0, usize::MAX + 1).contains(x));
        assert(to_id(x) == c);
    }
    assert(set_int_range(0, usize::MAX + 1).map(to_id) =~= all_type_ids());
}

/// How many type ids a walk that already visits `visiting` has left.
pub open spec fn unvisited(visiting: Set<CheckedTypeId>) -> nat {
    all_type_ids().difference(visiting).len()
}

/// Visiting one more type leaves fewer to visit.
pub proof fn lemma_visit_shrinks(visiting: Set<CheckedTypeId>, id: CheckedTypeId)
    requires
        !visiting.contains(id),
    ensures
        unvisited(visiting.insert(id)) < unvisited(visiting),
{
    lemma_all_type_ids_finite();
    let rest = all_type_ids().difference(visiting);
    assert(all_type_ids().difference(visiting.insert(id)) =~= rest.remove(id));
    assert(rest.contains(id));
    vstd::set::axiom_set_difference_finite(all_type_ids(), visiting);
    vstd::set::axiom_set_remove_len(rest, id);
}

/// Whether a type of shape `t` is itself what `query` looks for. `root`
/// tells whether it is the walked type rather than a part of it: a full
/// channel or eventual is only a find as a part.
pub open spec fn hits(query: TypeQuery, t: CheckedTypeView, root: bool) -> bool {
    match query {
        TypeQuery::FullChannel => match t {
            CheckedTypeView::Channel { .. } => !root,
            CheckedTypeView::Eventual { .. } => !root,
            _ => false,
        },
        TypeQuery::SharedPointer => match t {
            CheckedTypeView::Pointer { shared, weak, sync, .. } => !sync && (shared || weak),
            _ => false,
        },
        TypeQuery::Borrowed => t is Borrowed,
        TypeQuery::Fin => false,
        TypeQuery::Eventual => t is Eventual,
        TypeQuery::Moves => match t {
            CheckedTypeView::Owned { .. } => true,
            CheckedTypeView::Pointer { shared, weak, .. } => !shared && !weak,
            CheckedTypeView::Eventual { .. } => true,
            CheckedTypeView::Channel { .. } => true,
            CheckedTypeView::ChannelReceiver { .. } => true,
            CheckedTypeView::Declared { kind, .. } => kind == DeclaredTypeKind::GenericParameter,
            _ => false,
        },
        TypeQuery::GenericParameter => match t {
            CheckedTypeView::Declared { kind, .. } => kind == DeclaredTypeKind::GenericParameter,
            _ => false,
        },
    }
}

/// The wrapped types from `ids`.
pub open spec fn all_present(ids: Seq<CheckedTypeId>) -> Seq<Option<CheckedTypeId>> {
    ids.map_values(|i: CheckedTypeId| Some(i))
}

/// The parts of a type of shape `t` a walk for `query` looks into, besides
/// the type a named type is declared as; `None` stands for an absent part.
/// Finalization and move walks do not look through borrows, pointers,
/// channels or eventuals, and a finalization walk not through error shells
/// either; only full-channel and eventual walks look into routine
/// signatures.
pub open spec fn parts(query: TypeQuery, t: CheckedTypeView) -> Seq<Option<CheckedTypeId>> {
    let fin = query == TypeQuery::Fin || query == TypeQuery::Moves;
    match t {
        CheckedTypeView::Builtin(_) => Seq::empty(),
        CheckedTypeView::Declared { args, .. } => all_present(args),
        CheckedTypeView::Array { element_type, .. } => seq![Some(element_type)],
        CheckedTypeView::Vector { element_type } => seq![Some(element_type)],
        CheckedTypeView::Sequence { element_type } => seq![Some(element_type)],
        CheckedTypeView::SetOf { member_types } => all_present(member_types),
        CheckedTypeView::MapOf { key_type, value_type } => seq![Some(key_type), Some(value_type)],
        CheckedTypeView::Channel { element_type } => if fin {
            Seq::empty()
        } else {
            seq![Some(element_type)]
        },
        CheckedTypeView::ChannelSender { element_type } => if fin {
            Seq::empty()
        } else {
            seq![Some(element_type)]
        },
        CheckedTypeView::ChannelReceiver { element_type } => if fin {
            Seq::empty()
        } else {
            seq![Some(element_type)]
        },
        CheckedTypeView::Eventual { value_type, error_type } => if fin {
            Seq::empty()
        } else {
            seq![Some(value_type), error_type]
        },
        CheckedTypeView::Optional { inner } => seq![Some(inner)],
        CheckedTypeView::Owned { inner } => seq![Some(inner)],
        CheckedTypeView::Borrowed { inner, .. } => if fin {
            Seq::empty()
        } else {
            seq![Some(inner)]
        },
        CheckedTypeView::Pointer { target, .. } => if fin {
            Seq::empty()
        } else {
            seq![Some(target)]
        },
        CheckedTypeView::Error { inner } => if query == TypeQuery::Fin {
            Seq::empty()
        } else {
            seq![inner]
        },
        CheckedTypeView::Record { fields } => fields.map_values(
            |f: (Seq<char>, CheckedTypeId)| Some(f.1),
        ),
        CheckedTypeView::Entry { variants } => variants.map_values(
            |v: (Seq<char>, Option<CheckedTypeId>)| v.1,
        ),
        CheckedTypeView::Routine(r) => if looks_into_routines(query) {
            all_present(r.params) + seq![r.return_type, r.error_type]
        } else {
            Seq::empty()
        },
    }
}

/// The type `symbol` is declared as, if the checker knows one.
pub open spec fn declared_type_of(symbols: Map<SymbolId, TypedSymbol>, symbol: SymbolId) -> Option<
    CheckedTypeId,
> {
    if symbols.contains_key(symbol) {
        symbols[symbol].declared_type
    } else {
        None
    }
}

/// Whether a walk for `query` from type `id`, with the types in `visiting`
/// already on its path, finds what it looks for. A type already on the path
/// finds nothing; finalization and move walks find a type claiming `fin`; a shell
/// type is walked as its apparent type; otherwise the type is a find
/// itself, or one of its parts is, or, for walks that follow declarations,
/// the type a named type is declared as.
pub open spec fn reaches(
    query: TypeQuery,
    facts: FactsView,
    symbols: Map<SymbolId, TypedSymbol>,
    id: CheckedTypeId,
    root: bool,
    visiting: Set<CheckedTypeId>,
) -> bool
    decreases unvisited(visiting), 0int,
{
    if visiting.contains(id) {
        false
    } else {
        let seen = visiting.insert(id);
        proof {
            lemma_visit_shrinks(visiting, id);
        }
        if (query == TypeQuery::Fin || query == TypeQuery::Moves) && facts.fin_types.contains(id) {
            true
        } else if facts.apparent_type_overrides.contains_key(id) {
            reaches(query, facts, symbols, facts.apparent_type_overrides[id], root, seen)
        } else if id.0 < facts.types.len() {
            let t = facts.types[id.0 as int];
            ||| hits(query, t, root)
            ||| reaches_any(query, facts, symbols, parts(query, t), seen, parts(query, t).len() as int)
            ||| match t {
                CheckedTypeView::Declared { symbol, .. } => follows_declarations(query) && match declared_type_of(
                    symbols,
                    symbol,
                ) {
                    Some(d) => reaches(query, facts, symbols, d, root, seen),
                    None => false,
                },
                _ => false,
            }
        } else {
            false
        }
    }
}

/// Whether a walk for `query` from one of the first `n` present parts in
/// `ids` finds what it looks for.
pub open spec fn reaches_any(
    query: TypeQuery,
    facts: FactsView,
    symbols: Map<SymbolId, TypedSymbol>,
    ids: Seq<Option<CheckedTypeId>>,
    visiting: Set<CheckedTypeId>,
    n: int,
) -> bool
    decreases unvisited(visiting), if n > 0 {
        n + 1
    } else {
        1
    },
{
    if n <= 0 || n > ids.len() {
        false
    } else {
        ||| reaches_any(query, facts, symbols, ids, visiting, n - 1)
        ||| match ids[n - 1] {
            Some(part) => reaches(query, facts, symbols, part, false, visiting),
            None => false,
        }
    }
}

/// A find among the first `n` parts is a find among the first `m >= n`.
pub proof fn lemma_reaches_any_grows(
    query: TypeQuery,
    facts: FactsView,
    symbols: Map<SymbolId, TypedSymbol>,
    ids: Seq<Option<CheckedTypeId>>,
    visiting: Set<CheckedTypeId>,
    n: int,
    m: int,
)
    requires
        0 <= n <= m <= ids.len(),
        reaches_any(query, facts, symbols, ids, visiting, n),
    ensures
        reaches_any(query, facts, symbols, ids, visiting, m),
    decreases m - n,
{
    if n < m {
        lemma_reaches_any_grows(query, facts, symbols, ids, visiting, n, m - 1);
    }
}

/// Whether a type is itself what `query` looks for.
fn type_hits(query: TypeQuery, t: &CheckedType, root: bool) -> (r: bool)
    ensures
        r == hits(query, t@, root),
{
    match query {
        TypeQuery::FullChannel => match t {
            CheckedType::Channel { .. } => !root,
            CheckedType::Eventual { .. } => !root,
            _ => false,
        },
        TypeQuery::SharedPointer => match t {
            CheckedType::Pointer { shared, weak, sync, .. } => !*sync && (*shared || *weak),
            _ => false,
        },
        TypeQuery::Borrowed => match t {
            CheckedType::Borrowed { .. } => true,
            _ => false,
        },
        TypeQuery::Fin => false,
        TypeQuery::Eventual => match t {
            CheckedType::Eventual { .. } => true,
            _ => false,
        },
        TypeQuery::Moves => match t {
            CheckedType::Owned { .. } => true,
            CheckedType::Pointer { shared, weak, .. } => !*shared && !*weak,
            CheckedType::Eventual { .. } => true,
            CheckedType::Channel { .. } => true,
            CheckedType::ChannelReceiver { .. } => true,
            CheckedType::Declared { kind: DeclaredTypeKind::GenericParameter, .. } => true,
            _ => false,
        },
        TypeQuery::GenericParameter => match t {
            CheckedType::Declared { kind: DeclaredTypeKind::GenericParameter, .. } => true,
            _ => false,
        },
    }
}

/// `ids`, each wrapped as a present part.
fn present_parts(ids: &Vec<CheckedTypeId>) -> (r: Vec<Option<CheckedTypeId>>)
    ensures
        r@ == all_present(ids@),
{
    let mut out: Vec<Option<CheckedTypeId>> = Vec::new();
    let mut i: usize = 0;
    while i < ids.len()
        invariant
            i <= ids@.len(),
            out@ == all_present(ids@.take(i as int)),
        decreases ids@.len() - i,
    {
        out.push(Some(ids[i]));
        proof {
            assert(all_present(ids@.take(i + 1)) =~= all_present(ids@.take(i as int)).push(
                Some(ids@[i as int]),
            ));
        }
        i = i + 1;
    }
    proof {
        assert(ids@.take(i as int) =~= ids@);
    }
    out
}

/// The parts of a type a walk for `query` looks into.
fn type_parts(query: TypeQuery, t: &CheckedType) -> (r: Vec<Option<CheckedTypeId>>)
    ensures
        r@ == parts(query, t@),
{
    let fin = match query {
        TypeQuery::Fin => true,
        TypeQuery::Moves => true,
        _ => false,
    };
    let only_fin = match query {
        TypeQuery::Fin => true,
        _ => false,
    };
    let mut out: Vec<Option<CheckedTypeId>> = Vec::new();
    match t {
        CheckedType::Builtin(_) => {},
        CheckedType::Declared { args, .. } => {
            out = present_parts(args);
        },
        CheckedType::Array { element_type, .. } => {
            out.push(Some(*element_type));
        },
        CheckedType::Vector { element_type } => {
            out.push(Some(*element_type));
        },
        CheckedType::Sequence { element_type } => {
            out.push(Some(*element_type));
        },
        CheckedType::SetOf { member_types } => {
            out = present_parts(member_types);
        },
        CheckedType::MapOf { key_type, value_type } => {
            out.push(Some(*key_type));
            out.push(Some(*value_type));
        },
        CheckedType::Channel { element_type } => {
            if !fin {
                out.push(Some(*element_type));
            }
        },
        CheckedType::ChannelSender { element_type } => {
            if !fin {
                out.push(Some(*element_type));
            }
        },
        CheckedType::ChannelReceiver { element_type } => {
            if !fin {
                out.push(Some(*element_type));
            }
        },
        CheckedType::Eventual { value_type, error_type } => {
            if !fin {
                out.push(Some(*value_type));
                out.push(*error_type);
            }
        },
        CheckedType::Optional { inner } => {
            out.push(Some(*inner));
        },
        CheckedType::Owned { inner } => {
            out.push(Some(*inner));
        },
        CheckedType::Borrowed { inner, .. } => {
            if !fin {
                out.push(Some(*inner));
            }
        },
        CheckedType::Pointer { target, .. } => {
            if !fin {
                out.push(Some(*target));
            }
        },
        CheckedType::Error { inner } => {
            if !only_fin {
                out.push(*inner);
            }
        },
        CheckedType::Record { fields } => {
            let ghost e = fields.entries();
            let mut i: usize = 0;
            while i < fields.len()
                invariant
                    i <= e.len(),
                    e == fields.entries(),
                    out@ == e.take(i as int).map_values(|f: (Seq<char>, CheckedTypeId)| Some(f.1)),
                decreases e.len() - i,
            {
                out.push(Some(*fields.value_at(i)));
                proof {
                    assert(e.take(i + 1).map_values(|f: (Seq<char>, CheckedTypeId)| Some(f.1))
                        =~= e.take(i as int).map_values(|f: (Seq<char>, CheckedTypeId)| Some(f.1)).push(
                        Some(e[i as int].1),
                    ));
                }
                i = i + 1;
            }
            proof {
                assert(e.take(i as int) =~= e);
            }
        },
        CheckedType::Entry { variants } => {
            let ghost e = variants.entries();
            let mut i: usize = 0;
            while i < variants.len()
                invariant
                    i <= e.len(),
                    e == variants.entries(),
                    out@ == e.take(i as int).map_values(
                        |v: (Seq<char>, Option<CheckedTypeId>)| v.1,
                    ),
                decreases e.len() - i,
            {
                out.push(*variants.value_at(i));
                proof {
                    assert(e.take(i + 1).map_values(|v: (Seq<char>, Option<CheckedTypeId>)| v.1)
                        =~= e.take(i as int).map_values(
                        |v: (Seq<char>, Option<CheckedTypeId>)| v.1,
                    ).push(e[i as int].1));
                }
                i = i + 1;
            }
            proof {
                assert(e.take(i as int) =~= e);
            }
        },
        CheckedType::Routine(r) => {
            let signatures = match query {
                TypeQuery::FullChannel => true,
                TypeQuery::Eventual => true,
                TypeQuery::GenericParameter => true,
                _ => false,
            };
            if signatures {
                out = present_parts(&r.params);
                out.push(r.return_type);
                out.push(r.error_type);
                proof {
                    assert(out@ =~= all_present(r.params@) + seq![r.return_type, r.error_type]);
                }
            }
        },
    }
    proof {
        assert(out@ =~= parts(query, t@));
    }
    out
}

/// The walk for `query` from `type_id`, with the types in `visiting` on
/// its path.
fn walk(
    typed: &TypedProgram,
    query: TypeQuery,
    type_id: CheckedTypeId,
    root: bool,
    visiting: &SortedMap<CheckedTypeId, ()>,
) -> (r: bool)
    ensures
        r == reaches(
            query,
            typed.facts(),
            typed.symbol_facts(),
            type_id,
            root,
            visiting.as_map().dom(),
        ),
    decreases unvisited(visiting.as_map().dom()),
{
    let ghost f = typed.facts();
    let ghost sy = typed.symbol_facts();
    let ghost v = visiting.as_map().dom();
    if visiting.contains_key(&type_id) {
        return false;
    }
    let mut seen = visiting.duplicate();
    seen.insert(type_id, ());
    proof {
        lemma_visit_shrinks(v, type_id);
        assert(seen.as_map().dom() =~= v.insert(type_id)) by {
            assert(visiting.deep_view().dom() =~= v);
            assert(seen.as_map().dom() =~= visiting.deep_view().dom().insert(type_id));
        }
    }
    let ghost s = seen.as_map().dom();
    let is_fin_walk = match query {
        TypeQuery::Fin => true,
        TypeQuery::Moves => true,
        _ => false,
    };
    if is_fin_walk && typed.type_claims_fin(type_id) {
        return true;
    }
    match typed.apparent_type_override(type_id) {
        Some(apparent) => {
            return walk(typed, query, apparent, root, &seen);
        },
        None => {},
    }
    match typed.type_table().get(type_id) {
        Some(t) => {
            if type_hits(query, t, root) {
                return true;
            }
            let ps = type_parts(query, t);
            let mut i: usize = 0;
            while i < ps.len()
                invariant
                    i <= ps@.len(),
                    ps@ == parts(query, t@),
                    s == seen.as_map().dom(),
                    v == visiting.as_map().dom(),
                    s == v.insert(type_id),
                    !v.contains(type_id),
                    unvisited(s) < unvisited(v),
                    !((query == TypeQuery::Fin || query == TypeQuery::Moves) && f.fin_types.contains(
                        type_id,
                    )),
                    !f.apparent_type_overrides.contains_key(type_id),
                    type_id.0 < f.types.len(),
                    t@ == f.types[type_id.0 as int],
                    !hits(query, t@, root),
                    f == typed.facts(),
                    sy == typed.symbol_facts(),
                    !reaches_any(query, f, sy, ps@, s, i as int),
                decreases ps@.len() - i,
            {
                match ps[i] {
                    Some(part) => {
                        if walk(typed, query, part, false, &seen) {
                            proof {
                                assert(reaches_any(query, f, sy, ps@, s, i + 1));
                                lemma_reaches_any_grows(
                                    query,
                                    f,
                                    sy,
                                    ps@,
                                    s,
                                    i + 1,
                                    ps@.len() as int,
                                );
                            }
                            return true;
                        }
                    },
                    None => {},
                }
                i = i + 1;
            }
            let follows = match query {
                TypeQuery::Eventual => false,
                TypeQuery::GenericParameter => false,
                _ => true,
            };
            match t {
                CheckedType::Declared { symbol, .. } => if follows {
                    match typed.typed_symbol(*symbol) {
                        Some(declared) => match declared.declared_type {
                            Some(d) => walk(typed, query, d, root, &seen),
                            None => false,
                        },
                        None => false,
                    }
                } else {
                    false
                },
                _ => false,
            }
        },
        None => false,
    }
}

/// The walk for `query` from `type_id` as the walked type itself.
fn walk_from(typed: &TypedProgram, query: TypeQuery, type_id: CheckedTypeId) -> (r: bool)
    ensures
        r == reaches(query, typed.facts(), typed.symbol_facts(), type_id, true, Set::empty()),
{
    let visiting: SortedMap<CheckedTypeId, ()> = SortedMap::new();
    proof {
        assert(visiting.as_map().dom() =~= Set::empty());
    }
    walk(typed, query, type_id, true, &visiting)
}

/// Whether `type_id` is or holds a generic parameter, in its type arguments,
/// parts or routine signatures.
pub fn checked_type_contains_generic_param(typed: &TypedProgram, type_id: CheckedTypeId) -> (r: bool)
    ensures
        r == reaches(
            TypeQuery::GenericParameter,
            typed.facts(),
            typed.symbol_facts(),
            type_id,
            true,
            Set::empty(),
        ),
{
    walk_from(typed, TypeQuery::GenericParameter, type_id)
}

/// Whether `type_id` holds a full channel or eventual inside an aggregate
/// or wrapper type; a full channel or eventual itself does not count.
pub fn type_embeds_full_channel(typed: &TypedProgram, type_id: CheckedTypeId) -> (r: bool)
    ensures
        r == reaches(
            TypeQuery::FullChannel,
            typed.facts(),
            typed.symbol_facts(),
            type_id,
            true,
            Set::empty(),
        ),
{
    walk_from(typed, TypeQuery::FullChannel, type_id)
}

/// Whether a value of type `type_id` moves rather than copies when its
/// ownership is transferred: it claims `fin`, or is or holds an owned shell,
/// a unique pointer, an eventual, a full channel, a receiver or a generic
/// parameter.
pub fn ownership_moves_on_transfer(typed: &TypedProgram, type_id: CheckedTypeId) -> (r: bool)
    ensures
        r == reaches(
            TypeQuery::Moves,
            typed.facts(),
            typed.symbol_facts(),
            type_id,
            true,
            Set::empty(),
        ),
{
    walk_from(typed, TypeQuery::Moves, type_id)
}

/// Whether `type_id` is or holds a shared or weak pointer that is not
/// thread-safe.
pub fn type_contains_shared_pointer(typed: &TypedProgram, type_id: CheckedTypeId) -> (r: bool)
    ensures
        r == reaches(
            TypeQuery::SharedPointer,
            typed.facts(),
            typed.symbol_facts(),
            type_id,
            true,
            Set::empty(),
        ),
{
    walk_from(typed, TypeQuery::SharedPointer, type_id)
}

/// Whether `type_id` is or holds a borrowed type.
pub fn type_contains_borrowed(typed: &TypedProgram, type_id: CheckedTypeId) -> (r: bool)
    ensures
        r == reaches(
            TypeQuery::Borrowed,
            typed.facts(),
            typed.symbol_facts(),
            type_id,
            true,
            Set::empty(),
        ),
{
    walk_from(typed, TypeQuery::Borrowed, type_id)
}

/// Whether `type_id` is or holds an eventual, through its parts and type
/// arguments but not through named types' declarations.
pub fn type_contains_eventual(typed: &TypedProgram, type_id: CheckedTypeId) -> (r: bool)
    ensures
        r == reaches(
            TypeQuery::Eventual,
            typed.facts(),
            typed.symbol_facts(),
            type_id,
            true,
            Set::empty(),
        ),
{
    walk_from(typed, TypeQuery::Eventual, type_id)
}

/// Whether type `id` embeds an eventual in a composite value: an eventual
/// whose value or error type holds one, or another type holding one.
pub open spec fn nests_eventual(
    facts: FactsView,
    symbols: Map<SymbolId, TypedSymbol>,
    id: CheckedTypeId,
) -> bool {
    match crate::apparent::type_at(facts, id) {
        Some(CheckedTypeView::Eventual { value_type, error_type }) => reaches(
            TypeQuery::Eventual,
            facts,
            symbols,
            value_type,
            true,
            Set::empty(),
        ) || match error_type {
            Some(e) => reaches(TypeQuery::Eventual, facts, symbols, e, true, Set::empty()),
            None => false,
        },
        _ => reaches(TypeQuery::Eventual, facts, symbols, id, true, Set::empty()),
    }
}

/// Whether `type_id` embeds an eventual in a composite value.
pub fn type_has_nested_eventual(typed: &TypedProgram, type_id: CheckedTypeId) -> (r: bool)
    ensures
        r == nests_eventual(typed.facts(), typed.symbol_facts(), type_id),
{
    match typed.type_table().get(type_id) {
        Some(CheckedType::Eventual { value_type, error_type }) => {
            type_contains_eventual(typed, *value_type) || match error_type {
                Some(e) => type_contains_eventual(typed, *e),
                None => false,
            }
        },
        _ => type_contains_eventual(typed, type_id),
    }
}

/// Whether `type_id` is, or holds as a field or element, a type whose
/// declaration claims custom finalization.
pub fn type_contains_fin(typed: &TypedProgram, type_id: CheckedTypeId) -> (r: bool)
    ensures
        r == reaches(
            TypeQuery::Fin,
            typed.facts(),
            typed.symbol_facts(),
            type_id,
            true,
            Set::empty(),
        ),
{
    walk_from(typed, TypeQuery::Fin, type_id)
}

/// Whether `id` is or holds a finalizing type.
pub open spec fn contains_fin(
    facts: FactsView,
    symbols: Map<SymbolId, TypedSymbol>,
    id: CheckedTypeId,
) -> bool {
    reaches(TypeQuery::Fin, facts, symbols, id, true, Set::empty())
}

/// Whether an entry variant's payload, if it has one, is or holds a
/// finalizing type.
pub open spec fn payload_contains_fin(
    facts: FactsView,
    symbols: Map<SymbolId, TypedSymbol>,
    payload: Option<CheckedTypeId>,
) -> bool {
    match payload {
        Some(p) => contains_fin(facts, symbols, p),
        None => false,
    }
}

/// Whether `id` holds a finalizing type without resolving to one itself:
/// such a part is not finalized by iterating or unwrapping its holder.
pub open spec fn fin_hidden_in(
    facts: FactsView,
    symbols: Map<SymbolId, TypedSymbol>,
    id: CheckedTypeId,
) -> bool {
    !crate::facts::resolves_to_fin(facts, symbols, id) && contains_fin(facts, symbols, id)
}

/// Whether one of `ids` is or holds a finalizing type.
pub open spec fn any_holds_fin(
    facts: FactsView,
    symbols: Map<SymbolId, TypedSymbol>,
    ids: Seq<CheckedTypeId>,
) -> bool {
    exists|j: int| 0 <= j < ids.len() && contains_fin(facts, symbols, #[trigger] ids[j])
}

/// Whether one of the variant payloads in `variants` is or holds a
/// finalizing type.
pub open spec fn any_payload_holds_fin(
    facts: FactsView,
    symbols: Map<SymbolId, TypedSymbol>,
    variants: Seq<(Seq<char>, Option<CheckedTypeId>)>,
) -> bool {
    exists|j: int|
        0 <= j < variants.len() && payload_contains_fin(facts, symbols, (#[trigger] variants[j]).1)
}

/// Whether one of `ids` holds a finalizing type without resolving to one.
pub open spec fn any_hides_fin(
    facts: FactsView,
    symbols: Map<SymbolId, TypedSymbol>,
    ids: Seq<CheckedTypeId>,
) -> bool {
    exists|j: int| 0 <= j < ids.len() && fin_hidden_in(facts, symbols, #[trigger] ids[j])
}

/// Whether type `id`, with the types in `peeled` already peeled on the
/// way to it, stores a finalizing value inside another value where no
/// finalizer would reach it, deciding within `fuel` levels of record
/// fields; `None` when more levels are needed. Apparent types and named
/// types' declarations are peeled; a type argument holding a finalizing
/// type counts; a record field counts when it hides one deeper than its
/// own finalizer reaches; an entry variant counts when it holds one; a
/// container, optional or owned element counts when it holds one without
/// resolving to one.
pub open spec fn nested_fin_within(
    facts: FactsView,
    symbols: Map<SymbolId, TypedSymbol>,
    id: CheckedTypeId,
    peeled: Set<CheckedTypeId>,
    fuel: nat,
) -> Option<bool>
    decreases fuel, unvisited(peeled), 0nat,
{
    if fuel == 0 {
        None
    } else if peeled.contains(id) {
        Some(false)
    } else {
        let next = peeled.insert(id);
        proof {
            lemma_visit_shrinks(peeled, id);
        }
        if facts.apparent_type_overrides.contains_key(id) {
            nested_fin_within(facts, symbols, facts.apparent_type_overrides[id], next, fuel)
        } else if id.0 < facts.types.len() {
            match facts.types[id.0 as int] {
                CheckedTypeView::Declared { symbol, args, .. } => if any_holds_fin(
                    facts,
                    symbols,
                    args,
                ) {
                    Some(true)
                } else {
                    match declared_type_of(symbols, symbol) {
                        Some(d) => nested_fin_within(facts, symbols, d, next, fuel),
                        None => Some(false),
                    }
                },
                CheckedTypeView::Record { fields } => fields_nested_fin(
                    facts,
                    symbols,
                    fields,
                    (fuel - 1) as nat,
                    fields.len() as int,
                ),
                CheckedTypeView::Entry { variants } => Some(
                    any_payload_holds_fin(facts, symbols, variants),
                ),
                CheckedTypeView::Array { element_type, .. } => Some(
                    fin_hidden_in(facts, symbols, element_type),
                ),
                CheckedTypeView::Vector { element_type } => Some(
                    fin_hidden_in(facts, symbols, element_type),
                ),
                CheckedTypeView::Sequence { element_type } => Some(
                    fin_hidden_in(facts, symbols, element_type),
                ),
                CheckedTypeView::SetOf { member_types } => Some(
                    any_hides_fin(facts, symbols, member_types),
                ),
                CheckedTypeView::MapOf { key_type, value_type } => Some(
                    fin_hidden_in(facts, symbols, key_type) || fin_hidden_in(
                        facts,
                        symbols,
                        value_type,
                    ),
                ),
                CheckedTypeView::Optional { inner } => Some(fin_hidden_in(facts, symbols, inner)),
                CheckedTypeView::Owned { inner } => Some(fin_hidden_in(facts, symbols, inner)),
                _ => Some(false),
            }
        } else {
            Some(false)
        }
    }
}

/// Whether one of the first `n` record fields of `fields`, in order,
/// hides a finalizing value, each decided within `fuel` levels.
pub open spec fn fields_nested_fin(
    facts: FactsView,
    symbols: Map<SymbolId, TypedSymbol>,
    fields: Seq<(Seq<char>, CheckedTypeId)>,
    fuel: nat,
    n: int,
) -> Option<bool>
    decreases fuel, unvisited(Set::empty()) + 1, if n > 0 {
        n as nat
    } else {
        0nat
    },
{
    if n <= 0 || n > fields.len() {
        Some(false)
    } else {
        match fields_nested_fin(facts, symbols, fields, fuel, n - 1) {
            Some(false) => {
                let field = fields[n - 1].1;
                if crate::facts::resolves_to_fin(facts, symbols, field) {
                    Some(false)
                } else {
                    nested_fin_within(facts, symbols, field, Set::empty(), fuel)
                }
            },
            other => other,
        }
    }
}

/// Deciding `type_id` ends within finitely many levels of record fields.
pub open spec fn nested_fin_decided(
    facts: FactsView,
    symbols: Map<SymbolId, TypedSymbol>,
    id: CheckedTypeId,
) -> bool {
    exists|n: nat| (#[trigger] nested_fin_within(facts, symbols, id, Set::empty(), n)) is Some
}

/// Whether type `id` stores a finalizing value where no finalizer reaches
/// it, when that is decided.
pub open spec fn nested_fin(
    facts: FactsView,
    symbols: Map<SymbolId, TypedSymbol>,
    id: CheckedTypeId,
) -> bool {
    nested_fin_within(
        facts,
        symbols,
        id,
        Set::empty(),
        choose|n: nat| (#[trigger] nested_fin_within(facts, symbols, id, Set::empty(), n)) is Some,
    )->0
}

/// Once a prefix of the fields is undecided or hides a finalizing value,
/// every longer prefix is the same.
pub proof fn lemma_fields_nested_fin_settled(
    facts: FactsView,
    symbols: Map<SymbolId, TypedSymbol>,
    fields: Seq<(Seq<char>, CheckedTypeId)>,
    fuel: nat,
    n: int,
    m: int,
)
    requires
        0 <= n <= m <= fields.len(),
        fields_nested_fin(facts, symbols, fields, fuel, n) != Some(false),
    ensures
        fields_nested_fin(facts, symbols, fields, fuel, m) == fields_nested_fin(
            facts,
            symbols,
            fields,
            fuel,
            n,
        ),
    decreases m - n,
{
    if n < m {
        lemma_fields_nested_fin_settled(facts, symbols, fields, fuel, n, m - 1);
    }
}

/// Whether one of `ids` is or holds a finalizing type.
fn any_contains_fin(typed: &TypedProgram, ids: &Vec<CheckedTypeId>) -> (r: bool)
    ensures
        r == any_holds_fin(typed.facts(), typed.symbol_facts(), ids@),
{
    let mut i: usize = 0;
    while i < ids.len()
        invariant
            i <= ids@.len(),
            forall|j: int|
                0 <= j < i ==> !contains_fin(typed.facts(), typed.symbol_facts(), #[trigger] ids@[j]),
        decreases ids@.len() - i,
    {
        if type_contains_fin(typed, ids[i]) {
            return true;
        }
        i = i + 1;
    }
    false
}

/// Whether `id` holds a finalizing type without resolving to one.
fn hides_fin(typed: &TypedProgram, id: CheckedTypeId) -> (r: bool)
    ensures
        r == fin_hidden_in(typed.facts(), typed.symbol_facts(), id),
{
    !typed.type_resolves_to_fin(id) && type_contains_fin(typed, id)
}

fn nested_fin_walk(typed: &TypedProgram, type_id: CheckedTypeId, Ghost(fuel): Ghost<nat>) -> (r: bool)
    requires
        nested_fin_within(typed.facts(), typed.symbol_facts(), type_id, Set::empty(), fuel) is Some,
    ensures
        nested_fin_within(typed.facts(), typed.symbol_facts(), type_id, Set::empty(), fuel) == Some(
            r,
        ),
    decreases fuel,
{
    let ghost f = typed.facts();
    let ghost sy = typed.symbol_facts();
    let ghost target = nested_fin_within(f, sy, type_id, Set::empty(), fuel);
    let mut current = type_id;
    let mut peeled: SortedMap<CheckedTypeId, ()> = SortedMap::new();
    proof {
        assert(peeled.as_map().dom() =~= Set::<CheckedTypeId>::empty());
    }
    loop
        invariant
            f == typed.facts(),
            sy == typed.symbol_facts(),
            target is Some,
            fuel > 0,
            nested_fin_within(f, sy, current, peeled.as_map().dom(), fuel) == target,
            target == nested_fin_within(f, sy, type_id, Set::empty(), fuel),
        decreases unvisited(peeled.as_map().dom()),
    {
        let ghost p = peeled.as_map().dom();
        if peeled.contains_key(&current) {
            return false;
        }
        let ghost before = peeled;
        peeled.insert(current, ());
        proof {
            lemma_visit_shrinks(p, current);
            assert(peeled.as_map().dom() =~= p.insert(current));
        }
        match typed.apparent_type_override(current) {
            Some(apparent) => {
                current = apparent;
                continue ;
            },
            None => {},
        }
        match typed.type_table().get(current) {
            Some(CheckedType::Declared { symbol, args, .. }) => {
                if any_contains_fin(typed, args) {
                    return true;
                }
                match typed.typed_symbol(*symbol) {
                    Some(declared) => match declared.declared_type {
                        Some(d) => {
                            current = d;
                        },
                        None => {
                            return false;
                        },
                    },
                    None => {
                        return false;
                    },
                }
            },
            Some(CheckedType::Record { fields }) => {
                let ghost e = fields.entries();
                let ghost inner_fuel = (fuel - 1) as nat;
                let mut i: usize = 0;
                while i < fields.len()
                    invariant
                        i <= e.len(),
                        e == fields.entries(),
                        f == typed.facts(),
                        sy == typed.symbol_facts(),
                        fuel > 0,
                        inner_fuel == fuel - 1,
                        fields_nested_fin(f, sy, e, inner_fuel, e.len() as int) == target,
                        target == nested_fin_within(f, sy, type_id, Set::empty(), fuel),
                        target is Some,
                        fields_nested_fin(f, sy, e, inner_fuel, i as int) == Some(false),
                    decreases e.len() - i,
                {
                    let field = *fields.value_at(i);
                    proof {
                        assert(field == e[i as int].1);
                    }
                    if !typed.type_resolves_to_fin(field) {
                        proof {
                            if fields_nested_fin(f, sy, e, inner_fuel, i + 1) != Some(false) {
                                lemma_fields_nested_fin_settled(
                                    f,
                                    sy,
                                    e,
                                    inner_fuel,
                                    i + 1,
                                    e.len() as int,
                                );
                            }
                        }
                        if nested_fin_walk(typed, field, Ghost(inner_fuel)) {
                            proof {
                                lemma_fields_nested_fin_settled(
                                    f,
                                    sy,
                                    e,
                                    inner_fuel,
                                    i + 1,
                                    e.len() as int,
                                );
                            }
                            return true;
                        }
                    }
                    i = i + 1;
                }
                return false;
            },
            Some(CheckedType::Entry { variants }) => {
                let ghost e = variants.entries();
                proof {
                    assert(nested_fin_within(f, sy, current, p, fuel) == target);
                    assert(!p.contains(current));
                    assert(!f.apparent_type_overrides.contains_key(current));
                    assert(current.0 < f.types.len());
                    assert(f.types[current.0 as int] == CheckedTypeView::Entry { variants: e });
                }
                let mut i: usize = 0;
                while i < variants.len()
                    invariant
                        i <= e.len(),
                        e == variants.entries(),
                        f == typed.facts(),
                        sy == typed.symbol_facts(),
                        forall|j: int|
                            0 <= j < i ==> !payload_contains_fin(f, sy, (#[trigger] e[j]).1),
                        target == nested_fin_within(f, sy, type_id, Set::empty(), fuel),
                        nested_fin_within(f, sy, current, p, fuel) == target,
                        !p.contains(current),
                        !f.apparent_type_overrides.contains_key(current),
                        current.0 < f.types.len(),
                        f.types[current.0 as int] == (CheckedTypeView::Entry { variants: e }),
                        fuel > 0,
                    decreases e.len() - i,
                {
                    match *variants.value_at(i) {
                        Some(payload) => {
                            if type_contains_fin(typed, payload) {
                                proof {
                                    assert(e[i as int].1 == Some(payload));
                                    assert(payload_contains_fin(f, sy, e[i as int].1));
                                    assert(any_payload_holds_fin(f, sy, e));
                                }
                                return true;
                            }
                        },
                        None => {},
                    }
                    i = i + 1;
                }
                return false;
            },
            Some(CheckedType::Array { element_type, .. }) => {
                return hides_fin(typed, *element_type);
            },
            Some(CheckedType::Vector { element_type }) => {
                return hides_fin(typed, *element_type);
            },
            Some(CheckedType::Sequence { element_type }) => {
                return hides_fin(typed, *element_type);
            },
            Some(CheckedType::SetOf { member_types }) => {
                proof {
                    assert(target == Some(any_hides_fin(f, sy, member_types@)));
                }
                let mut i: usize = 0;
                while i < member_types.len()
                    invariant
                        i <= member_types@.len(),
                        f == typed.facts(),
                        sy == typed.symbol_facts(),
                        forall|j: int|
                            0 <= j < i ==> !fin_hidden_in(f, sy, #[trigger] member_types@[j]),
                        target == nested_fin_within(f, sy, type_id, Set::empty(), fuel),
                        target == Some(any_hides_fin(f, sy, member_types@)),
                    decreases member_types@.len() - i,
                {
                    if hides_fin(typed, member_types[i]) {
                        proof {
                            assert(fin_hidden_in(f, sy, member_types@[i as int]));
                            assert(any_hides_fin(f, sy, member_types@));
                        }
                        return true;
                    }
                    i = i + 1;
                }
                return false;
            },
            Some(CheckedType::MapOf { key_type, value_type }) => {
                return hides_fin(typed, *key_type) || hides_fin(typed, *value_type);
            },
            Some(CheckedType::Optional { inner }) => {
                return hides_fin(typed, *inner);
            },
            Some(CheckedType::Owned { inner }) => {
                return hides_fin(typed, *inner);
            },
            _ => {
                return false;
            },
        }
    }
}

/// Whether `type_id` stores a finalizing value inside another value — a
/// record field, container element, shell payload or type argument — where
/// no finalizer would reach it, as opposed to being the finalized value.
pub fn type_has_nested_fin(typed: &TypedProgram, type_id: CheckedTypeId) -> (r: bool)
    requires
        nested_fin_decided(typed.facts(), typed.symbol_facts(), type_id),
    ensures
        r == nested_fin(typed.facts(), typed.symbol_facts(), type_id),
{
    let ghost fuel = choose|n: nat|
        (#[trigger] nested_fin_within(typed.facts(), typed.symbol_facts(), type_id, Set::empty(), n))
            is Some;
    nested_fin_walk(typed, type_id, Ghost(fuel))
}

/// A finalization walk that finds a `fin` type means a move walk from the
/// same place finds one too.
proof fn lemma_fin_walk_implies_move_walk(
    facts: FactsView,
    symbols: Map<SymbolId, TypedSymbol>,
    id: CheckedTypeId,
    root: bool,
    visiting: Set<CheckedTypeId>,
)
    ensures
        reaches(TypeQuery::Fin, facts, symbols, id, root, visiting) ==> reaches(
            TypeQuery::Moves,
            facts,
            symbols,
            id,
            root,
            visiting,
        ),
    decreases unvisited(visiting), 0int,
{
    if !visiting.contains(id) {
        let seen = visiting.insert(id);
        lemma_visit_shrinks(visiting, id);
        if facts.fin_types.contains(id) {
        } else if facts.apparent_type_overrides.contains_key(id) {
            lemma_fin_walk_implies_move_walk(
                facts,
                symbols,
                facts.apparent_type_overrides[id],
                root,
                seen,
            );
        } else if id.0 < facts.types.len() {
            let t = facts.types[id.0 as int];
            assert(!hits(TypeQuery::Fin, t, root));
            if t is Error {
                assert(parts(TypeQuery::Fin, t).len() == 0);
                assert(!reaches_any(TypeQuery::Fin, facts, symbols, parts(TypeQuery::Fin, t), seen, 0));
            } else {
                assert(parts(TypeQuery::Fin, t) == parts(TypeQuery::Moves, t));
                lemma_fin_walk_implies_move_walk_any(
                    facts,
                    symbols,
                    parts(TypeQuery::Fin, t),
                    seen,
                    parts(TypeQuery::Fin, t).len() as int,
                );
            }
            match t {
                CheckedTypeView::Declared { symbol, .. } => match declared_type_of(symbols, symbol) {
                    Some(d) => {
                        lemma_fin_walk_implies_move_walk(facts, symbols, d, root, seen);
                    },
                    None => {},
                },
                _ => {},
            }
        }
    }
}

/// A finalization walk from one of the first `n` parts in `ids` that finds
/// a `fin` type means a move walk from there finds one too.
proof fn lemma_fin_walk_implies_move_walk_any(
    facts: FactsView,
    symbols: Map<SymbolId, TypedSymbol>,
    ids: Seq<Option<CheckedTypeId>>,
    visiting: Set<CheckedTypeId>,
    n: int,
)
    ensures
        reaches_any(TypeQuery::Fin, facts, symbols, ids, visiting, n) ==> reaches_any(
            TypeQuery::Moves,
            facts,
            symbols,
            ids,
            visiting,
            n,
        ),
    decreases unvisited(visiting), if n > 0 {
        n + 1
    } else {
        1
    },
{
    if 0 < n <= ids.len() {
        lemma_fin_walk_implies_move_walk_any(facts, symbols, ids, visiting, n - 1);
        match ids[n - 1] {
            Some(part) => {
                lemma_fin_walk_implies_move_walk(facts, symbols, part, false, visiting);
            },
            None => {},
        }
    }
}

/// A value that is or holds a type claiming `fin` moves rather than copies
/// when its ownership is transferred.
pub proof fn law_finalizing_values_move(
    facts: FactsView,
    symbols: Map<SymbolId, TypedSymbol>,
    id: CheckedTypeId,
)
    ensures
        reaches(TypeQuery::Fin, facts, symbols, id, true, Set::empty()) ==> reaches(
            TypeQuery::Moves,
            facts,
            symbols,
            id,
            true,
            Set::empty(),
        ),
{
    lemma_fin_walk_implies_move_walk(facts, symbols, id, true, Set::empty());
}

/// A value of a type that claims `fin` always moves when its ownership is
/// transferred.
pub proof fn law_fin_types_move_on_transfer(
    facts: FactsView,
    symbols: Map<SymbolId, TypedSymbol>,
    id: CheckedTypeId,
)
    requires
        facts.fin_types.contains(id),
    ensures
        reaches(TypeQuery::Moves, facts, symbols, id, true, Set::empty()),
{
}

/// A walk that finds something with more types already on its path also
/// finds it with fewer, and a move walk does not depend on whether it
/// started at the root.
proof fn lemma_reaches_with_fewer_visited(
    facts: FactsView,
    symbols: Map<SymbolId, TypedSymbol>,
    id: CheckedTypeId,
    root: bool,
    root2: bool,
    more: Set<CheckedTypeId>,
    fewer: Set<CheckedTypeId>,
)
    requires
        fewer.subset_of(more),
        reaches(TypeQuery::Moves, facts, symbols, id, root, more),
    ensures
        reaches(TypeQuery::Moves, facts, symbols, id, root2, fewer),
    decreases unvisited(more), 0int,
{
    let q = TypeQuery::Moves;
    let seen = more.insert(id);
    let seen2 = fewer.insert(id);
    lemma_visit_shrinks(more, id);
    assert(seen2.subset_of(seen));
    if facts.fin_types.contains(id) {
    } else if facts.apparent_type_overrides.contains_key(id) {
        lemma_reaches_with_fewer_visited(
            facts,
            symbols,
            facts.apparent_type_overrides[id],
            root,
            root2,
            seen,
            seen2,
        );
    } else if id.0 < facts.types.len() {
        let t = facts.types[id.0 as int];
        if hits(q, t, root) {
        } else if reaches_any(q, facts, symbols, parts(q, t), seen, parts(q, t).len() as int) {
            lemma_reaches_any_with_fewer_visited(
                facts,
                symbols,
                parts(q, t),
                seen,
                seen2,
                parts(q, t).len() as int,
            );
        } else {
            match t {
                CheckedTypeView::Declared { symbol, .. } => {
                    lemma_reaches_with_fewer_visited(
                        facts,
                        symbols,
                        declared_type_of(symbols, symbol)->0,
                        root,
                        root2,
                        seen,
                        seen2,
                    );
                },
                _ => {},
            }
        }
    }
}

/// `lemma_reaches_with_fewer_visited` for the first `n` parts.
proof fn lemma_reaches_any_with_fewer_visited(
    facts: FactsView,
    symbols: Map<SymbolId, TypedSymbol>,
    ids: Seq<Option<CheckedTypeId>>,
    more: Set<CheckedTypeId>,
    fewer: Set<CheckedTypeId>,
    n: int,
)
    requires
        fewer.subset_of(more),
        reaches_any(TypeQuery::Moves, facts, symbols, ids, more, n),
    ensures
        reaches_any(TypeQuery::Moves, facts, symbols, ids, fewer, n),
    decreases unvisited(more), if n > 0 {
        n + 1
    } else {
        1
    },
{
    if n > 0 && n <= ids.len() {
        if reaches_any(TypeQuery::Moves, facts, symbols, ids, more, n - 1) {
            lemma_reaches_any_with_fewer_visited(facts, symbols, ids, more, fewer, n - 1);
        } else {
            lemma_reaches_with_fewer_visited(facts, symbols, ids[n - 1]->0, false, false, more, fewer);
        }
    }
}

/// A find among the first `n` parts is a find from one of them.
proof fn lemma_reaches_any_witness(
    query: TypeQuery,
    facts: FactsView,
    symbols: Map<SymbolId, TypedSymbol>,
    ids: Seq<Option<CheckedTypeId>>,
    visiting: Set<CheckedTypeId>,
    n: int,
) -> (k: int)
    requires
        reaches_any(query, facts, symbols, ids, visiting, n),
    ensures
        0 <= k < n,
        k < ids.len(),
        ids[k] is Some,
        reaches(query, facts, symbols, ids[k]->0, false, visiting),
    decreases n,
{
    if reaches_any(query, facts, symbols, ids, visiting, n - 1) {
        lemma_reaches_any_witness(query, facts, symbols, ids, visiting, n - 1)
    } else {
        n - 1
    }
}

/// Whether a transfer of a value of type `t` moves it at once: `t` claims
/// `fin`, or, with no recorded apparent type, is itself an owned value, a
/// unique pointer, an eventual, a full channel or receiver, or a generic
/// parameter.
pub open spec fn moves_at_once(facts: FactsView, t: CheckedTypeId) -> bool {
    ||| facts.fin_types.contains(t)
    ||| !facts.apparent_type_overrides.contains_key(t) && t.0 < facts.types.len() && hits(
        TypeQuery::Moves,
        facts.types[t.0 as int],
        false,
    )
}

/// Whether `part` is one of the parts through which a container of shape
/// `t` moves: the element of an array, vector, sequence or optional, the key
/// or value type of a map, a field of a record.
pub open spec fn container_part(t: CheckedTypeView, part: CheckedTypeId) -> bool {
    match t {
        CheckedTypeView::Array { element_type, .. } => part == element_type,
        CheckedTypeView::Vector { element_type } => part == element_type,
        CheckedTypeView::Sequence { element_type } => part == element_type,
        CheckedTypeView::Optional { inner } => part == inner,
        CheckedTypeView::MapOf { key_type, value_type } => part == key_type || part == value_type,
        CheckedTypeView::Record { fields } => crate::render::field_types_contain(fields, part),
        _ => false,
    }
}

/// A container one of whose parts moves at once moves on transfer too: an
/// array, vector, sequence or optional through its element, a map through
/// its key or value type, a record through any field.
pub proof fn law_container_moves_with_a_moving_part(
    facts: FactsView,
    symbols: Map<SymbolId, TypedSymbol>,
    container: CheckedTypeId,
    part: CheckedTypeId,
)
    requires
        crate::render::acyclic(facts.types),
        !facts.fin_types.contains(container),
        !facts.apparent_type_overrides.contains_key(container),
        container.0 < facts.types.len(),
        container_part(facts.types[container.0 as int], part),
        moves_at_once(facts, part),
    ensures
        reaches(TypeQuery::Moves, facts, symbols, container, true, Set::empty()),
{
    let t = facts.types[container.0 as int];
    let seen = Set::<CheckedTypeId>::empty().insert(container);
    assert(crate::render::renders_into(t, part));
    if part.0 < facts.types.len() {
        let rank = choose|rank: Seq<nat>| crate::render::ranked_by(facts.types, rank);
        assert(rank[part.0 as int] < rank[container.0 as int]);
    }
    assert(part != container);
    assert(reaches(TypeQuery::Moves, facts, symbols, part, false, seen));
    let ids = parts(TypeQuery::Moves, t);
    let k: int = match t {
        CheckedTypeView::MapOf { key_type, value_type } => if part == key_type {
            0
        } else {
            1
        },
        CheckedTypeView::Record { fields } => choose|k: int| 0 <= k < fields.len() && #[trigger] fields[k].1 == part,
        _ => 0,
    };
    assert(0 <= k < ids.len() && ids[k] == Some(part));
    assert(reaches_any(TypeQuery::Moves, facts, symbols, ids, seen, k + 1));
    lemma_reaches_any_grows(TypeQuery::Moves, facts, symbols, ids, seen, k + 1, ids.len() as int);
}

/// A container moves on transfer only if one of its parts does: an array,
/// vector, sequence or optional only if its element does, a map only if
/// its key or value type does, a record only if one of its fields does.
pub proof fn law_container_moves_only_through_its_parts(
    facts: FactsView,
    symbols: Map<SymbolId, TypedSymbol>,
    container: CheckedTypeId,
)
    requires
        !facts.fin_types.contains(container),
        !facts.apparent_type_overrides.contains_key(container),
        container.0 < facts.types.len(),
        reaches(TypeQuery::Moves, facts, symbols, container, true, Set::empty()),
    ensures
        match facts.types[container.0 as int] {
            CheckedTypeView::Array { element_type, .. } | CheckedTypeView::Vector { element_type }
            | CheckedTypeView::Sequence { element_type } => reaches(
                TypeQuery::Moves,
                facts,
                symbols,
                element_type,
                true,
                Set::empty(),
            ),
            CheckedTypeView::Optional { inner } => reaches(
                TypeQuery::Moves,
                facts,
                symbols,
                inner,
                true,
                Set::empty(),
            ),
            CheckedTypeView::MapOf { key_type, value_type } => reaches(
                TypeQuery::Moves,
                facts,
                symbols,
                key_type,
                true,
                Set::empty(),
            ) || reaches(TypeQuery::Moves, facts, symbols, value_type, true, Set::empty()),
            CheckedTypeView::Record { fields } => exists|k: int|
                0 <= k < fields.len() && #[trigger] reaches(
                    TypeQuery::Moves,
                    facts,
                    symbols,
                    fields[k].1,
                    true,
                    Set::empty(),
                ),
            _ => true,
        },
{
    let q = TypeQuery::Moves;
    let e = Set::<CheckedTypeId>::empty();
    let seen = e.insert(container);
    let t = facts.types[container.0 as int];
    let ps = parts(q, t);
    match t {
        CheckedTypeView::Array { element_type, .. } | CheckedTypeView::Vector { element_type }
        | CheckedTypeView::Sequence { element_type } | CheckedTypeView::Optional {
            inner: element_type,
        } => {
            assert(ps == seq![Some(element_type)]);
            assert(reaches_any(q, facts, symbols, ps, seen, 1));
            reveal_with_fuel(reaches_any, 2);
            lemma_reaches_with_fewer_visited(facts, symbols, element_type, false, true, seen, e);
        },
        CheckedTypeView::Record { fields } => {
            assert(!hits(q, t, true));
            assert(reaches_any(q, facts, symbols, ps, seen, ps.len() as int));
            let k = lemma_reaches_any_witness(q, facts, symbols, ps, seen, ps.len() as int);
            assert(ps[k] == Some(fields[k].1));
            lemma_reaches_with_fewer_visited(facts, symbols, fields[k].1, false, true, seen, e);
        },
        CheckedTypeView::MapOf { key_type, value_type } => {
            assert(ps == seq![Some(key_type), Some(value_type)]);
            assert(reaches_any(q, facts, symbols, ps, seen, 2));
            reveal_with_fuel(reaches_any, 3);
            if reaches(q, facts, symbols, key_type, false, seen) {
                lemma_reaches_with_fewer_visited(facts, symbols, key_type, false, true, seen, e);
            } else {
                lemma_reaches_with_fewer_visited(facts, symbols, value_type, false, true, seen, e);
            }
        },
        _ => {},
    }
}

} // verus!
