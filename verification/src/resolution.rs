//! What the checker reads of name resolution: each scope's parent and
//! whether it is a routine body, and each symbol's name and scope; and the
//! questions asked of the scope tree.
use crate::ids::{ReferenceId, ScopeId, SourceUnitId, SymbolId, SyntaxNodeId, SyntaxOrigin};
use crate::sorted_map::SortedMap;
use vstd::prelude::*;

verus! {

/// A scope as name resolution recorded it.
#[derive(Clone, Copy, Debug, PartialEq, Eq, Structural)]
pub struct ResolvedScope {
    /// The enclosing scope, if any.
    pub parent: Option<ScopeId>,
    /// Whether the scope is a routine body.
    pub routine: bool,
}

/// The kinds of symbols the checker tells apart.
#[derive(Clone, Copy, Debug, PartialEq, Eq, Structural)]
pub enum SymbolKind {
    ValueBinding,
    LabelBinding,
    DestructureBinding,
    Parameter,
    Capture,
    LoopBinder,
    RollingBinder,
    Routine,
    Type,
    Alias,
}

/// A symbol as name resolution recorded it.
#[derive(Debug, PartialEq, Eq)]
pub struct ResolvedSymbol {
    pub name: String,
    pub kind: SymbolKind,
    /// Whether the binding was declared mutable.
    pub is_mutable: bool,
    pub source_unit: SourceUnitId,
    pub scope: ScopeId,
    /// Where the symbol is declared, when known.
    pub origin: Option<SyntaxOrigin>,
    /// Whether the symbol was mounted from another package.
    pub mounted: bool,
}

/// The kinds of name uses the checker tells apart.
#[derive(Clone, Copy, Debug, PartialEq, Eq, Structural)]
pub enum ReferenceKind {
    Identifier,
    QualifiedIdentifier,
    FunctionCall,
    QualifiedFunctionCall,
}

/// A name use as name resolution recorded it.
#[derive(Clone, Copy, Debug, PartialEq, Eq, Structural)]
pub struct ResolvedReference {
    pub kind: ReferenceKind,
    /// The syntax node of the use, when known.
    pub syntax_id: Option<SyntaxNodeId>,
    pub source_unit: SourceUnitId,
    /// The symbol the use resolved to, if any.
    pub resolved: Option<SymbolId>,
}

/// The package name, scopes, symbols, name uses and source positions of a
/// resolved program.
#[derive(Debug, PartialEq, Eq)]
pub struct Resolution {
    /// The name of the package that was resolved.
    pub package: String,
    pub scopes: SortedMap<ScopeId, ResolvedScope>,
    pub symbols: SortedMap<SymbolId, ResolvedSymbol>,
    pub references: SortedMap<ReferenceId, ResolvedReference>,
    /// The source position of each syntax node.
    pub origins: SortedMap<SyntaxNodeId, SyntaxOrigin>,
}

/// Whether `r` holds no package name, scopes, symbols, name uses or
/// positions.
pub open spec fn empty_resolution(r: Resolution) -> bool {
    &&& r.package@ == Seq::<char>::empty()
    &&& r.scopes.as_map() == Map::<ScopeId, ResolvedScope>::empty()
    &&& r.symbols.as_map() == Map::<SymbolId, ResolvedSymbol>::empty()
    &&& r.references.as_map() == Map::<ReferenceId, ResolvedReference>::empty()
    &&& r.origins.as_map() == Map::<SyntaxNodeId, SyntaxOrigin>::empty()
}

impl Resolution {
    /// A resolution with no scopes and no symbols.
    pub fn new() -> (r: Self)
        ensures
            r.package@ == Seq::<char>::empty(),
            r.scopes.as_map() == Map::<ScopeId, ResolvedScope>::empty(),
            r.symbols.as_map() == Map::<SymbolId, ResolvedSymbol>::empty(),
            r.references.as_map() == Map::<ReferenceId, ResolvedReference>::empty(),
            r.origins.as_map() == Map::<SyntaxNodeId, SyntaxOrigin>::empty(),
    {
        Resolution {
            package: String::new(),
            scopes: SortedMap::new(),
            symbols: SortedMap::new(),
            references: SortedMap::new(),
            origins: SortedMap::new(),
        }
    }

    /// The name use `id`, if resolution recorded it.
    pub fn reference(&self, id: ReferenceId) -> (r: Option<&ResolvedReference>)
        ensures
            match r {
                Some(x) => self.references.as_map().contains_key(id) && *x
                    == self.references.as_map()[id],
                None => !self.references.as_map().contains_key(id),
            },
    {
        self.references.get(&id)
    }

    /// The scope `id`, if resolution recorded it.
    pub fn scope(&self, id: ScopeId) -> (r: Option<&ResolvedScope>)
        ensures
            match r {
                Some(s) => self.scopes.as_map().contains_key(id) && *s == self.scopes.as_map()[id],
                None => !self.scopes.as_map().contains_key(id),
            },
    {
        self.scopes.get(&id)
    }

    /// The symbol `id`, if resolution recorded it.
    pub fn symbol(&self, id: SymbolId) -> (r: Option<&ResolvedSymbol>)
        ensures
            match r {
                Some(s) => self.symbols.as_map().contains_key(id) && *s == self.symbols.as_map()[id],
                None => !self.symbols.as_map().contains_key(id),
            },
    {
        self.symbols.get(&id)
    }
}

/// The scope `k` steps up from `scope`: `scope` itself at `0`, then each
/// recorded parent in turn; `None` once a scope is unrecorded or has no
/// parent.
pub open spec fn ancestor_at(scopes: Map<ScopeId, ResolvedScope>, scope: ScopeId, k: nat) -> Option<
    ScopeId,
>
    decreases k,
{
    if k == 0 {
        Some(scope)
    } else {
        match ancestor_at(scopes, scope, (k - 1) as nat) {
            Some(c) => if scopes.contains_key(c) {
                scopes[c].parent
            } else {
                None
            },
            None => None,
        }
    }
}

/// Once the walk up from `scope` has ended, it stays ended.
pub proof fn lemma_ancestor_end_stays(
    scopes: Map<ScopeId, ResolvedScope>,
    scope: ScopeId,
    i: nat,
    j: nat,
)
    requires
        ancestor_at(scopes, scope, i) is None,
        i <= j,
    ensures
        ancestor_at(scopes, scope, j) is None,
    decreases j,
{
    if i < j {
        lemma_ancestor_end_stays(scopes, scope, i, (j - 1) as nat);
    }
}

/// `ancestor` is `scope` or one of the scopes enclosing it.
pub open spec fn is_ancestor(
    scopes: Map<ScopeId, ResolvedScope>,
    ancestor: ScopeId,
    scope: ScopeId,
) -> bool {
    exists|k: nat| #[trigger] ancestor_at(scopes, scope, k) == Some(ancestor)
}

/// The walk up from `scope` meets `ancestor` or ends.
pub open spec fn ancestor_search_ends(
    scopes: Map<ScopeId, ResolvedScope>,
    scope: ScopeId,
    ancestor: ScopeId,
) -> bool {
    exists|k: nat|
        #![trigger ancestor_at(scopes, scope, k)]
        ancestor_at(scopes, scope, k) == Some(ancestor) || ancestor_at(scopes, scope, k) is None
}

/// Whether `ancestor` is `scope` or encloses it.
pub fn scope_descends_from(resolved: &Resolution, scope: ScopeId, ancestor: ScopeId) -> (r: bool)
    requires
        ancestor_search_ends(resolved.scopes.as_map(), scope, ancestor),
    ensures
        r == is_ancestor(resolved.scopes.as_map(), ancestor, scope),
{
    let ghost scopes = resolved.scopes.as_map();
    let ghost bound: nat = choose|k: nat|
        #![trigger ancestor_at(scopes, scope, k)]
        ancestor_at(scopes, scope, k) == Some(ancestor) || ancestor_at(scopes, scope, k) is None;
    let mut current = scope;
    let ghost mut k: nat = 0;
    loop
        invariant
            scopes == resolved.scopes.as_map(),
            ancestor_at(scopes, scope, k) == Some(current),
            ancestor_at(scopes, scope, bound) == Some(ancestor) || ancestor_at(scopes, scope, bound)
                is None,
            forall|j: nat| j < k ==> #[trigger] ancestor_at(scopes, scope, j) != Some(ancestor),
            forall|j: nat| j <= k ==> #[trigger] ancestor_at(scopes, scope, j) is Some,
        decreases bound - k,
    {
        if current.0 == ancestor.0 {
            return true;
        }
        proof {
            if bound <= k {
                assert(ancestor_at(scopes, scope, bound) is Some);
                assert(ancestor_at(scopes, scope, bound) != Some(ancestor));
            }
        }
        let parent = match resolved.scope(current) {
            Some(s) => s.parent,
            None => None,
        };
        match parent {
            Some(p) => {
                current = p;
                proof {
                    k = k + 1;
                }
            },
            None => {
                proof {
                    assert(ancestor_at(scopes, scope, k + 1) is None);
                    assert forall|j: nat| #[trigger] ancestor_at(scopes, scope, j) != Some(ancestor) by {
                        if j > k {
                            lemma_ancestor_end_stays(scopes, scope, k + 1, j);
                        }
                    }
                }
                return false;
            },
        }
    }
}

/// Whether `possible_ancestor` is `scope` or one of the scopes enclosing it.
pub fn scope_is_same_or_ancestor(resolved: &Resolution, possible_ancestor: ScopeId, scope: ScopeId) -> (r:
    bool)
    requires
        ancestor_search_ends(resolved.scopes.as_map(), scope, possible_ancestor),
    ensures
        r == is_ancestor(resolved.scopes.as_map(), possible_ancestor, scope),
{
    scope_descends_from(resolved, scope, possible_ancestor)
}

/// The scope `k` steps up from `scope` is a recorded routine body.
pub open spec fn routine_at(scopes: Map<ScopeId, ResolvedScope>, scope: ScopeId, k: nat) -> bool {
    match ancestor_at(scopes, scope, k) {
        Some(c) => scopes.contains_key(c) && scopes[c].routine,
        None => false,
    }
}

/// The scope `k` steps up from `scope` is the first routine body on the
/// way up.
pub open spec fn first_routine_at(scopes: Map<ScopeId, ResolvedScope>, scope: ScopeId, k: nat) -> bool {
    routine_at(scopes, scope, k) && forall|j: nat| j < k ==> !#[trigger] routine_at(scopes, scope, j)
}

/// The nearest routine body enclosing `scope`, or `scope` itself if it is
/// one.
pub open spec fn nearest_routine(scopes: Map<ScopeId, ResolvedScope>, scope: ScopeId) -> Option<
    ScopeId,
> {
    if exists|k: nat| #[trigger] first_routine_at(scopes, scope, k) {
        ancestor_at(scopes, scope, choose|k: nat| #[trigger] first_routine_at(scopes, scope, k))
    } else {
        None
    }
}

/// The walk up from `scope` meets a routine body or ends.
pub open spec fn routine_search_ends(scopes: Map<ScopeId, ResolvedScope>, scope: ScopeId) -> bool {
    exists|k: nat|
        #![trigger ancestor_at(scopes, scope, k)]
        routine_at(scopes, scope, k) || ancestor_at(scopes, scope, k) is None
}

/// The nearest routine body enclosing `scope`, or `scope` itself if it is
/// one.
pub fn nearest_routine_scope(resolved: &Resolution, scope: ScopeId) -> (r: Option<ScopeId>)
    requires
        routine_search_ends(resolved.scopes.as_map(), scope),
    ensures
        r == nearest_routine(resolved.scopes.as_map(), scope),
{
    let ghost scopes = resolved.scopes.as_map();
    let ghost bound: nat = choose|k: nat|
        #![trigger ancestor_at(scopes, scope, k)]
        routine_at(scopes, scope, k) || ancestor_at(scopes, scope, k) is None;
    let mut current = scope;
    let ghost mut k: nat = 0;
    loop
        invariant
            scopes == resolved.scopes.as_map(),
            ancestor_at(scopes, scope, k) == Some(current),
            routine_at(scopes, scope, bound) || ancestor_at(scopes, scope, bound) is None,
            forall|j: nat| j < k ==> !#[trigger] routine_at(scopes, scope, j),
            forall|j: nat| j <= k ==> #[trigger] ancestor_at(scopes, scope, j) is Some,
        decreases bound - k,
    {
        let found = match resolved.scope(current) {
            Some(s) => s,
            None => {
                proof {
                    assert(!routine_at(scopes, scope, k));
                    assert(ancestor_at(scopes, scope, k + 1) is None);
                    assert forall|j: nat| !#[trigger] first_routine_at(scopes, scope, j) by {
                        if j > k {
                            lemma_ancestor_end_stays(scopes, scope, k + 1, j);
                        }
                    }
                }
                return None;
            },
        };
        if found.routine {
            proof {
                assert(first_routine_at(scopes, scope, k));
                let c = choose|c: nat| #[trigger] first_routine_at(scopes, scope, c);
                if c < k {
                    assert(!routine_at(scopes, scope, c));
                } else if k < c {
                    assert(!routine_at(scopes, scope, k));
                }
            }
            return Some(current);
        }
        proof {
            if bound <= k {
                assert(ancestor_at(scopes, scope, bound) is Some);
                assert(!routine_at(scopes, scope, bound));
            }
        }
        match found.parent {
            Some(p) => {
                current = p;
                proof {
                    k = k + 1;
                }
            },
            None => {
                proof {
                    assert(!routine_at(scopes, scope, k));
                    assert(ancestor_at(scopes, scope, k + 1) is None);
                    assert forall|j: nat| !#[trigger] first_routine_at(scopes, scope, j) by {
                        if j > k {
                            lemma_ancestor_end_stays(scopes, scope, k + 1, j);
                            assert(!routine_at(scopes, scope, j));
                        }
                    }
                }
                return None;
            },
        }
    }
}

/// `s` is declared in `scope` of `source_unit` as `name` of kind `kind`.
pub open spec fn declared_as(
    s: ResolvedSymbol,
    source_unit: SourceUnitId,
    scope: ScopeId,
    name: Seq<char>,
    kind: SymbolKind,
) -> bool {
    s.source_unit == source_unit && s.scope == scope && s.name@ == name && s.kind == kind
}

/// The first symbol, by id from position `i` of `entries` on, declared in
/// `scope` of `source_unit` as `name` of kind `kind`.
pub open spec fn first_declared(
    entries: Seq<(SymbolId, ResolvedSymbol)>,
    source_unit: SourceUnitId,
    scope: ScopeId,
    name: Seq<char>,
    kind: SymbolKind,
    i: nat,
) -> Option<SymbolId>
    decreases entries.len() - i,
{
    if i >= entries.len() {
        None
    } else if declared_as(entries[i as int].1, source_unit, scope, name, kind) {
        Some(entries[i as int].0)
    } else {
        first_declared(entries, source_unit, scope, name, kind, i + 1)
    }
}

/// The symbol declared in `scope_id` of `source_unit_id` as `name` of kind
/// `kind`, the first by id if several are.
pub fn find_symbol_in_scope(
    resolved: &Resolution,
    source_unit_id: SourceUnitId,
    scope_id: ScopeId,
    name: &str,
    kind: SymbolKind,
) -> (r: Option<SymbolId>)
    ensures
        r == first_declared(resolved.symbols.entries(), source_unit_id, scope_id, name@, kind, 0),
{
    let ghost e = resolved.symbols.entries();
    let ghost target = first_declared(e, source_unit_id, scope_id, name@, kind, 0);
    let mut i: usize = 0;
    while i < resolved.symbols.len()
        invariant
            e == resolved.symbols.entries(),
            i <= e.len(),
            target == first_declared(e, source_unit_id, scope_id, name@, kind, 0),
            target == first_declared(e, source_unit_id, scope_id, name@, kind, i as nat),
        decreases e.len() - i,
    {
        let s = resolved.symbols.value_at(i);
        if s.source_unit.0 == source_unit_id.0 && s.scope.0 == scope_id.0 && s.kind == kind
            && crate::text::str_eq(&s.name, &crate::text::owned(name)) {
            return Some(*resolved.symbols.key_at(i));
        }
        i = i + 1;
    }
    None
}

/// A symbol declared as `name` of kind `kind` is found `k` steps up from
/// `scope`.
pub open spec fn found_at(
    resolved_scopes: Map<ScopeId, ResolvedScope>,
    entries: Seq<(SymbolId, ResolvedSymbol)>,
    source_unit: SourceUnitId,
    scope: ScopeId,
    name: Seq<char>,
    kind: SymbolKind,
    k: nat,
) -> bool {
    match ancestor_at(resolved_scopes, scope, k) {
        Some(c) => first_declared(entries, source_unit, c, name, kind, 0) is Some,
        None => false,
    }
}

/// The nearest scope, from `scope` up, that declares `name` of kind `kind`
/// is `k` steps up.
pub open spec fn first_found_at(
    resolved_scopes: Map<ScopeId, ResolvedScope>,
    entries: Seq<(SymbolId, ResolvedSymbol)>,
    source_unit: SourceUnitId,
    scope: ScopeId,
    name: Seq<char>,
    kind: SymbolKind,
    k: nat,
) -> bool {
    &&& found_at(resolved_scopes, entries, source_unit, scope, name, kind, k)
    &&& forall|j: nat|
        j < k ==> !#[trigger] found_at(resolved_scopes, entries, source_unit, scope, name, kind, j)
}

/// The symbol `name` of kind `kind` resolves to from `scope`: the one the
/// nearest declaring scope, from `scope` up, declares.
pub open spec fn chain_lookup(
    resolved_scopes: Map<ScopeId, ResolvedScope>,
    entries: Seq<(SymbolId, ResolvedSymbol)>,
    source_unit: SourceUnitId,
    scope: ScopeId,
    name: Seq<char>,
    kind: SymbolKind,
) -> Option<SymbolId> {
    if exists|k: nat| #[trigger] first_found_at(resolved_scopes, entries, source_unit, scope, name, kind, k) {
        let k = choose|k: nat| #[trigger] first_found_at(resolved_scopes, entries, source_unit, scope, name, kind, k);
        first_declared(entries, source_unit, ancestor_at(resolved_scopes, scope, k)->0, name, kind, 0)
    } else {
        None
    }
}

/// The walk up from `scope` finds a declaration of `name` of kind `kind`
/// or ends.
pub open spec fn lookup_ends(
    resolved_scopes: Map<ScopeId, ResolvedScope>,
    entries: Seq<(SymbolId, ResolvedSymbol)>,
    source_unit: SourceUnitId,
    scope: ScopeId,
    name: Seq<char>,
    kind: SymbolKind,
) -> bool {
    exists|k: nat|
        #![trigger ancestor_at(resolved_scopes, scope, k)]
        found_at(resolved_scopes, entries, source_unit, scope, name, kind, k) || ancestor_at(
            resolved_scopes,
            scope,
            k,
        ) is None
}

/// The symbol `name` of kind `kind` resolves to from `scope_id`: the one
/// the nearest declaring scope, from `scope_id` up, declares.
pub fn find_symbol_in_scope_chain(
    resolved: &Resolution,
    source_unit_id: SourceUnitId,
    scope_id: ScopeId,
    name: &str,
    kind: SymbolKind,
) -> (r: Option<SymbolId>)
    requires
        lookup_ends(
            resolved.scopes.as_map(),
            resolved.symbols.entries(),
            source_unit_id,
            scope_id,
            name@,
            kind,
        ),
    ensures
        r == chain_lookup(
            resolved.scopes.as_map(),
            resolved.symbols.entries(),
            source_unit_id,
            scope_id,
            name@,
            kind,
        ),
{
    let ghost scopes = resolved.scopes.as_map();
    let ghost e = resolved.symbols.entries();
    let ghost bound: nat = choose|k: nat|
        #![trigger ancestor_at(scopes, scope_id, k)]
        found_at(scopes, e, source_unit_id, scope_id, name@, kind, k) || ancestor_at(
            scopes,
            scope_id,
            k,
        ) is None;
    let mut current = scope_id;
    let ghost mut k: nat = 0;
    loop
        invariant
            scopes == resolved.scopes.as_map(),
            e == resolved.symbols.entries(),
            ancestor_at(scopes, scope_id, k) == Some(current),
            found_at(scopes, e, source_unit_id, scope_id, name@, kind, bound) || ancestor_at(
                scopes,
                scope_id,
                bound,
            ) is None,
            forall|j: nat|
                j < k ==> !#[trigger] found_at(scopes, e, source_unit_id, scope_id, name@, kind, j),
            forall|j: nat| j <= k ==> #[trigger] ancestor_at(scopes, scope_id, j) is Some,
        decreases bound - k,
    {
        match find_symbol_in_scope(resolved, source_unit_id, current, name, kind) {
            Some(found) => {
                proof {
                    assert(first_found_at(scopes, e, source_unit_id, scope_id, name@, kind, k));
                    let c = choose|c: nat|
                        #[trigger] first_found_at(scopes, e, source_unit_id, scope_id, name@, kind, c);
                    if c < k {
                        assert(!found_at(scopes, e, source_unit_id, scope_id, name@, kind, c));
                    } else if k < c {
                        assert(!found_at(scopes, e, source_unit_id, scope_id, name@, kind, k));
                    }
                }
                return Some(found);
            },
            None => {},
        }
        proof {
            assert(!found_at(scopes, e, source_unit_id, scope_id, name@, kind, k));
            if bound <= k {
                assert(ancestor_at(scopes, scope_id, bound) is Some);
                assert(!found_at(scopes, e, source_unit_id, scope_id, name@, kind, bound));
            }
        }
        let parent = match resolved.scope(current) {
            Some(s) => s.parent,
            None => None,
        };
        match parent {
            Some(p) => {
                current = p;
                proof {
                    k = k + 1;
                }
            },
            None => {
                proof {
                    assert(ancestor_at(scopes, scope_id, k + 1) is None);
                    assert forall|j: nat|
                        !#[trigger] first_found_at(scopes, e, source_unit_id, scope_id, name@, kind, j) by {
                        if j > k {
                            lemma_ancestor_end_stays(scopes, scope_id, k + 1, j);
                            assert(!found_at(scopes, e, source_unit_id, scope_id, name@, kind, j));
                        }
                    }
                }
                return None;
            },
        }
    }
}

/// The source position of syntax node `syntax_id`, when known.
pub fn origin_for(resolved: &Resolution, syntax_id: SyntaxNodeId) -> (r: Option<SyntaxOrigin>)
    ensures
        match r {
            Some(o) => resolved.origins.as_map().contains_key(syntax_id) && o
                == resolved.origins.as_map()[syntax_id],
            None => !resolved.origins.as_map().contains_key(syntax_id),
        },
{
    match resolved.origins.get(&syntax_id) {
        Some(o) => Some(o.copy()),
        None => None,
    }
}

/// The first name use, by id from position `i` of `entries` on, of kind
/// `kind` at syntax node `syntax_id`.
pub open spec fn first_reference(
    entries: Seq<(ReferenceId, ResolvedReference)>,
    syntax_id: SyntaxNodeId,
    kind: ReferenceKind,
    i: nat,
) -> Option<ReferenceId>
    decreases entries.len() - i,
{
    if i >= entries.len() {
        None
    } else if entries[i as int].1.syntax_id == Some(syntax_id) && entries[i as int].1.kind == kind {
        Some(entries[i as int].0)
    } else {
        first_reference(entries, syntax_id, kind, i + 1)
    }
}

/// The diagnostic for a name use `display_name` at `syntax_id` that
/// resolution did not record: at the node's position, or at the start of
/// the program as long as the name.
pub open spec fn missing_reference_error(
    origins: Map<SyntaxNodeId, SyntaxOrigin>,
    syntax_id: SyntaxNodeId,
    display_name: &str,
) -> crate::errors::TypecheckErrorView {
    crate::errors::TypecheckErrorView {
        kind: crate::errors::TypecheckErrorKind::InvalidInput,
        message: "reference '"@ + display_name@ + "' is missing from resolver output"@,
        origin: Some(
            if origins.contains_key(syntax_id) {
                origins[syntax_id]@
            } else {
                crate::ids::SyntaxOriginView {
                    file: None,
                    line: 1,
                    column: 1,
                    length: display_name.len(),
                }
            },
        ),
        related: seq![],
    }
}

/// The name use of kind `kind` at syntax node `syntax_id`, the first by id
/// if several are.
pub fn find_reference_by_syntax(
    resolved: &Resolution,
    syntax_id: SyntaxNodeId,
    kind: ReferenceKind,
    display_name: &str,
) -> (r: Result<ReferenceId, crate::errors::TypecheckError>)
    ensures
        match first_reference(resolved.references.entries(), syntax_id, kind, 0) {
            Some(id) => r == Ok::<ReferenceId, crate::errors::TypecheckError>(id),
            None => r matches Err(e) && e@ == missing_reference_error(
                resolved.origins.as_map(),
                syntax_id,
                display_name,
            ),
        },
{
    let ghost e = resolved.references.entries();
    let ghost target = first_reference(e, syntax_id, kind, 0);
    let mut i: usize = 0;
    while i < resolved.references.len()
        invariant
            e == resolved.references.entries(),
            i <= e.len(),
            target == first_reference(e, syntax_id, kind, 0),
            target == first_reference(e, syntax_id, kind, i as nat),
        decreases e.len() - i,
    {
        let reference = resolved.references.value_at(i);
        let at_node = match reference.syntax_id {
            Some(s) => s.0 == syntax_id.0,
            None => false,
        };
        if at_node && reference.kind == kind {
            return Ok(*resolved.references.key_at(i));
        }
        i = i + 1;
    }
    let mut message = crate::text::owned("reference '");
    crate::text::push_text(&mut message, display_name);
    crate::text::push_text(&mut message, "' is missing from resolver output");
    let origin = match origin_for(resolved, syntax_id) {
        Some(o) => o,
        None => SyntaxOrigin { file: None, line: 1, column: 1, length: display_name.len() },
    };
    Err(
        crate::errors::TypecheckError::with_origin(
            crate::errors::TypecheckErrorKind::InvalidInput,
            message.as_str(),
            origin,
        ),
    )
}

/// The symbol the name use of kind `kind` at syntax node `syntax_id`
/// resolved to: that of the first such use recorded, if it resolved.
pub open spec fn resolved_use(resolution: &Resolution, syntax_id: SyntaxNodeId, kind: ReferenceKind) -> Option<
    SymbolId,
> {
    match first_reference(resolution.references.entries(), syntax_id, kind, 0) {
        Some(id) => {
            if resolution.references.as_map().contains_key(id) {
                resolution.references.as_map()[id].resolved
            } else {
                None
            }
        },
        None => None,
    }
}

/// The symbol the name use of kind `kind` at syntax node `syntax_id`
/// resolved to.
pub fn resolve_use(resolution: &Resolution, syntax_id: SyntaxNodeId, kind: ReferenceKind) -> (r: Option<
    SymbolId,
>)
    ensures
        r == resolved_use(resolution, syntax_id, kind),
{
    match find_reference_by_syntax(resolution, syntax_id, kind, "") {
        Ok(id) => match resolution.reference(id) {
            Some(reference) => reference.resolved,
            None => None,
        },
        Err(_) => None,
    }
}

/// The symbol the identifier used at syntax node `syntax_id` resolved to.
pub fn reference_symbol(resolution: &Resolution, syntax_id: SyntaxNodeId) -> (r: Option<SymbolId>)
    ensures
        r == resolved_use(resolution, syntax_id, ReferenceKind::Identifier),
{
    resolve_use(resolution, syntax_id, ReferenceKind::Identifier)
}

/// Entry `e` is the parameter `name` of the routine whose signature scope
/// is `scope`, in source unit `unit`.
pub open spec fn is_parameter_of(
    e: (SymbolId, ResolvedSymbol),
    unit: SourceUnitId,
    scope: ScopeId,
    name: Seq<char>,
) -> bool {
    &&& e.1.source_unit == unit
    &&& e.1.scope == scope
    &&& e.1.kind == SymbolKind::Parameter
    &&& e.1.name@ == name
}

/// The first symbol, in symbol order from position `i` of `entries` on,
/// that is the parameter `name` of the routine with signature scope
/// `scope`.
pub open spec fn first_parameter(
    entries: Seq<(SymbolId, ResolvedSymbol)>,
    unit: SourceUnitId,
    scope: ScopeId,
    name: Seq<char>,
    i: int,
) -> Option<SymbolId>
    decreases entries.len() - i,
{
    if i < 0 || i >= entries.len() {
        None
    } else if is_parameter_of(entries[i], unit, scope, name) {
        Some(entries[i].0)
    } else {
        first_parameter(entries, unit, scope, name, i + 1)
    }
}

/// The parameter `name` of the routine whose signature scope is `scope`, in
/// source unit `unit`: the first in symbol order, if several are.
pub fn parameter_symbol(resolution: &Resolution, unit: SourceUnitId, scope: ScopeId, name: &str) -> (r:
    Option<SymbolId>)
    ensures
        r == first_parameter(resolution.symbols.entries(), unit, scope, name@, 0),
{
    let ghost e = resolution.symbols.entries();
    let mut i: usize = 0;
    while i < resolution.symbols.len()
        invariant
            e == resolution.symbols.entries(),
            i <= e.len(),
            first_parameter(e, unit, scope, name@, 0) == first_parameter(e, unit, scope, name@, i as int),
        decreases e.len() - i,
    {
        let symbol = resolution.symbols.value_at(i);
        if symbol.source_unit == unit && symbol.scope == scope && symbol.kind == SymbolKind::Parameter
            && crate::text::text_eq(symbol.name.as_str(), name) {
            return Some(*resolution.symbols.key_at(i));
        }
        i = i + 1;
    }
    None
}

/// Entry `e` may be the value or label binding `name` of the routine with
/// body scope `scope`, in source unit `unit`.
pub open spec fn is_binding_candidate(
    scopes: Map<ScopeId, ResolvedScope>,
    e: (SymbolId, ResolvedSymbol),
    unit: SourceUnitId,
    scope: ScopeId,
    name: Seq<char>,
) -> bool {
    &&& e.1.source_unit == unit
    &&& e.1.name@ == name
    &&& (e.1.kind == SymbolKind::ValueBinding || e.1.kind == SymbolKind::LabelBinding)
    &&& is_ancestor(scopes, scope, e.1.scope)
}

/// The candidates for binding `name` among the first `k` entries.
pub open spec fn binding_candidates(
    scopes: Map<ScopeId, ResolvedScope>,
    entries: Seq<(SymbolId, ResolvedSymbol)>,
    unit: SourceUnitId,
    scope: ScopeId,
    name: Seq<char>,
    k: nat,
) -> Seq<SymbolId>
    decreases k,
{
    if k == 0 {
        seq![]
    } else {
        let p = binding_candidates(scopes, entries, unit, scope, name, (k - 1) as nat);
        if is_binding_candidate(scopes, entries[k - 1], unit, scope, name) {
            p.push(entries[k - 1].0)
        } else {
            p
        }
    }
}

/// The first candidate for binding `name` among the first `k` entries that
/// is declared at `origin`.
pub open spec fn first_candidate_at(
    scopes: Map<ScopeId, ResolvedScope>,
    entries: Seq<(SymbolId, ResolvedSymbol)>,
    unit: SourceUnitId,
    scope: ScopeId,
    name: Seq<char>,
    origin: crate::ids::SyntaxOriginView,
    k: nat,
) -> Option<SymbolId>
    decreases k,
{
    if k == 0 {
        None
    } else {
        match first_candidate_at(scopes, entries, unit, scope, name, origin, (k - 1) as nat) {
            Some(x) => Some(x),
            None => {
                let e = entries[k - 1];
                if is_binding_candidate(scopes, e, unit, scope, name) && (e.1.origin matches Some(o)
                    && o@ == origin) {
                    Some(e.0)
                } else {
                    None
                }
            },
        }
    }
}

/// Which symbol the binding `name` declared at syntax node `syntax_id` in
/// the routine with body scope `scope` is: the first candidate declared
/// where the node is, or else the only candidate, if there is just one.
pub open spec fn binding_symbol_outcome(
    resolution: &Resolution,
    unit: SourceUnitId,
    scope: ScopeId,
    name: Seq<char>,
    syntax_id: Option<SyntaxNodeId>,
) -> Option<SymbolId> {
    let scopes = resolution.scopes.as_map();
    let e = resolution.symbols.entries();
    let candidates = binding_candidates(scopes, e, unit, scope, name, e.len());
    let at_origin = match syntax_id {
        Some(id) => {
            if resolution.origins.as_map().contains_key(id) {
                first_candidate_at(
                    scopes,
                    e,
                    unit,
                    scope,
                    name,
                    resolution.origins.as_map()[id]@,
                    e.len(),
                )
            } else {
                None
            }
        },
        None => None,
    };
    if at_origin is Some {
        at_origin
    } else if candidates.len() == 1 {
        Some(candidates[0])
    } else {
        None
    }
}

/// The symbol of binding `name`, declared at syntax node `syntax_id` in
/// the routine with body scope `scope` of source unit `unit`.
pub fn binding_symbol(
    resolution: &Resolution,
    unit: SourceUnitId,
    scope: ScopeId,
    name: &str,
    syntax_id: Option<SyntaxNodeId>,
) -> (r: Option<SymbolId>)
    requires
        forall|s: ScopeId| #[trigger] ancestor_search_ends(resolution.scopes.as_map(), s, scope),
    ensures
        r == binding_symbol_outcome(resolution, unit, scope, name@, syntax_id),
{
    let ghost scopes = resolution.scopes.as_map();
    let ghost e = resolution.symbols.entries();
    let origin = match syntax_id {
        Some(id) => origin_for(resolution, id),
        None => None,
    };
    let mut candidates: Vec<SymbolId> = Vec::new();
    let mut found: Option<SymbolId> = None;
    let mut i: usize = 0;
    while i < resolution.symbols.len()
        invariant
            e == resolution.symbols.entries(),
            scopes == resolution.scopes.as_map(),
            i <= e.len(),
            forall|s: ScopeId| #[trigger] ancestor_search_ends(scopes, s, scope),
            candidates@ == binding_candidates(scopes, e, unit, scope, name@, i as nat),
            match origin {
                Some(o) => found == first_candidate_at(scopes, e, unit, scope, name@, o@, i as nat),
                None => found is None,
            },
        decreases e.len() - i,
    {
        let symbol = resolution.symbols.value_at(i);
        let id = *resolution.symbols.key_at(i);
        let local_kind = symbol.kind == SymbolKind::ValueBinding || symbol.kind == SymbolKind::LabelBinding;
        let candidate = symbol.source_unit == unit && crate::text::text_eq(symbol.name.as_str(), name)
            && local_kind && {
            proof {
                assert(ancestor_search_ends(scopes, symbol.scope, scope));
            }
            scope_descends_from(resolution, symbol.scope, scope)
        };
        if candidate {
            candidates.push(id);
            match (&origin, &found) {
                (Some(o), None) => {
                    let same = match &symbol.origin {
                        Some(declared) => declared.same_as(o),
                        None => false,
                    };
                    if same {
                        found = Some(id);
                    }
                },
                _ => {},
            }
        }
        i = i + 1;
    }
    if found.is_some() {
        return found;
    }
    if candidates.len() == 1 {
        Some(candidates[0])
    } else {
        None
    }
}

/// The nearest routine body of a scope is a recorded routine body that is
/// the scope or encloses it.
pub proof fn law_nearest_routine_encloses(scopes: Map<ScopeId, ResolvedScope>, scope: ScopeId)
    ensures
        nearest_routine(scopes, scope) matches Some(c) ==> is_ancestor(scopes, c, scope)
            && scopes.contains_key(c) && scopes[c].routine,
{
    if exists|k: nat| #[trigger] first_routine_at(scopes, scope, k) {
        let k = choose|k: nat| #[trigger] first_routine_at(scopes, scope, k);
        assert(routine_at(scopes, scope, k));
        let c = ancestor_at(scopes, scope, k)->0;
        assert(ancestor_at(scopes, scope, k) == Some(c));
    }
}

/// A symbol found among `entries` from position `i` on is an entry
/// declared as asked.
proof fn lemma_first_declared_is_declared(
    entries: Seq<(SymbolId, ResolvedSymbol)>,
    source_unit: SourceUnitId,
    scope: ScopeId,
    name: Seq<char>,
    kind: SymbolKind,
    i: nat,
)
    ensures
        first_declared(entries, source_unit, scope, name, kind, i) matches Some(id) ==> exists|j: int|
            0 <= j < entries.len() && #[trigger] entries[j].0 == id && declared_as(
                entries[j].1,
                source_unit,
                scope,
                name,
                kind,
            ),
    decreases entries.len() - i,
{
    if i < entries.len() && !declared_as(entries[i as int].1, source_unit, scope, name, kind) {
        lemma_first_declared_is_declared(entries, source_unit, scope, name, kind, i + 1);
    }
}

/// A name resolves to a symbol declared under that name and kind, in the
/// same source file, in the scope it is looked up from or one enclosing
/// it.
pub proof fn law_lookup_finds_a_declaration(
    scopes: Map<ScopeId, ResolvedScope>,
    entries: Seq<(SymbolId, ResolvedSymbol)>,
    source_unit: SourceUnitId,
    scope: ScopeId,
    name: Seq<char>,
    kind: SymbolKind,
)
    ensures
        chain_lookup(scopes, entries, source_unit, scope, name, kind) matches Some(id) ==> exists|
            c: ScopeId,
            j: int,
        |
            #![trigger is_ancestor(scopes, c, scope), entries[j]]
            is_ancestor(scopes, c, scope) && 0 <= j < entries.len() && entries[j].0 == id
                && declared_as(entries[j].1, source_unit, c, name, kind),
{
    if exists|k: nat| #[trigger] first_found_at(scopes, entries, source_unit, scope, name, kind, k) {
        let k = choose|k: nat| #[trigger] first_found_at(scopes, entries, source_unit, scope, name, kind, k);
        assert(found_at(scopes, entries, source_unit, scope, name, kind, k));
        let c = ancestor_at(scopes, scope, k)->0;
        assert(ancestor_at(scopes, scope, k) == Some(c));
        assert(is_ancestor(scopes, c, scope));
        lemma_first_declared_is_declared(entries, source_unit, c, name, kind, 0);
    }
}

} // verus!
