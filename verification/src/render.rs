//! Rendering checked types as FOL surface syntax (`int`, `vec[str]`,
//! `map[str, int]`, `fun(int, str): int`, `rec { x: int }`).
use crate::sorted_map::SortedMap;
use crate::text::{owned, push_text};
use crate::types::{
    builtin_spelling, intern_spec, CheckedType, CheckedTypeId, CheckedTypeView, TypeTable,
};
use vstd::prelude::*;

verus! {

/// Whether rendering `t` descends into the type `c`.
pub open spec fn renders_into(t: CheckedTypeView, c: CheckedTypeId) -> bool {
    match t {
        CheckedTypeView::Builtin(_) => false,
        CheckedTypeView::Declared { args, .. } => args.contains(c),
        CheckedTypeView::Channel { element_type } => c == element_type,
        CheckedTypeView::ChannelSender { element_type } => c == element_type,
        CheckedTypeView::ChannelReceiver { element_type } => c == element_type,
        CheckedTypeView::Eventual { value_type, error_type } => c == value_type || error_type
            == Some(c),
        CheckedTypeView::Optional { inner } => c == inner,
        CheckedTypeView::Owned { inner } => c == inner,
        CheckedTypeView::Borrowed { inner, .. } => c == inner,
        CheckedTypeView::Pointer { target, .. } => c == target,
        CheckedTypeView::Error { inner } => inner == Some(c),
        CheckedTypeView::Array { element_type, .. } => c == element_type,
        CheckedTypeView::Vector { element_type } => c == element_type,
        CheckedTypeView::Sequence { element_type } => c == element_type,
        CheckedTypeView::SetOf { member_types } => member_types.contains(c),
        CheckedTypeView::MapOf { key_type, value_type } => c == key_type || c == value_type,
        CheckedTypeView::Routine(r) => r.params.contains(c) || r.return_type == Some(c)
            || r.error_type == Some(c),
        CheckedTypeView::Record { fields } => field_types_contain(fields, c),
        CheckedTypeView::Entry { variants } => payloads_contain(variants, c),
    }
}

/// Whether some record field has type `c`.
pub open spec fn field_types_contain(fields: Seq<(Seq<char>, CheckedTypeId)>, c: CheckedTypeId) -> bool {
    exists|k: int| 0 <= k < fields.len() && #[trigger] fields[k].1 == c
}

/// Whether some entry variant carries a payload of type `c`.
pub open spec fn payloads_contain(
    variants: Seq<(Seq<char>, Option<CheckedTypeId>)>,
    c: CheckedTypeId,
) -> bool {
    exists|k: int| 0 <= k < variants.len() && #[trigger] variants[k].1 == Some(c)
}

/// `rank` strictly decreases from each stored type to the stored types its
/// rendering descends into, and stays below the table length.
pub open spec fn ranked_by(s: Seq<CheckedTypeView>, rank: Seq<nat>) -> bool {
    &&& rank.len() == s.len()
    &&& forall|i: int| 0 <= i < s.len() ==> rank[i] < s.len()
    &&& forall|i: int, c: CheckedTypeId|
        #![trigger renders_into(s[i], c)]
        0 <= i < s.len() && renders_into(s[i], c) && c.0 < s.len() ==> rank[c.0 as int]
            < rank[i]
}

/// No stored type reaches itself through the types its rendering descends
/// into.
pub open spec fn acyclic(s: Seq<CheckedTypeView>) -> bool {
    exists|rank: Seq<nat>| ranked_by(s, rank)
}

/// Every type a stored type's rendering descends into is stored too.
pub open spec fn references_stored(s: Seq<CheckedTypeView>) -> bool {
    forall|i: int, c: CheckedTypeId|
        #![trigger renders_into(s[i], c)]
        0 <= i < s.len() && renders_into(s[i], c) ==> c.0 < s.len()
}

/// Interning a type whose components are already stored, into a table whose
/// types only refer to stored types, keeps the table free of cycles.
pub proof fn lemma_intern_keeps_acyclic(s: Seq<CheckedTypeView>, t: CheckedTypeView)
    requires
        acyclic(s),
        references_stored(s),
        forall|c: CheckedTypeId| #[trigger] renders_into(t, c) ==> c.0 < s.len(),
    ensures
        acyclic(intern_spec(s, t).0),
        references_stored(intern_spec(s, t).0),
{
    if !s.contains(t) {
        let rank = choose|rank: Seq<nat>| ranked_by(s, rank);
        let s1 = s.push(t);
        let rank1 = rank.push(s.len() as nat);
        assert forall|i: int, c: CheckedTypeId|
            #![trigger renders_into(s1[i], c)]
            0 <= i < s1.len() && renders_into(s1[i], c) && c.0 < s1.len() implies rank1[c.0 as int]
                < rank1[i] by {
            if i < s.len() {
                assert(s1[i] == s[i]);
                assert(renders_into(s[i], c));
                if c.0 == s.len() {
                    assert(rank[i] < s.len());
                }
            } else {
                assert(s1[i] == t);
                assert(c.0 < s.len());
            }
        }
        assert(ranked_by(s1, rank1));
        assert forall|i: int, c: CheckedTypeId|
            #![trigger renders_into(s1[i], c)]
            0 <= i < s1.len() && renders_into(s1[i], c) implies c.0 < s1.len() by {
            if i < s.len() {
                assert(s1[i] == s[i]);
                assert(renders_into(s[i], c));
            }
        }
    }
}

/// Text joined by ", ".
pub open spec fn comma_join(parts: Seq<Seq<char>>) -> Seq<char>
    decreases parts.len(),
{
    if parts.len() == 0 {
        seq![]
    } else if parts.len() == 1 {
        parts[0]
    } else {
        comma_join(parts.drop_last()) + ", "@ + parts.last()
    }
}

/// Renders `id` with at most `fuel` nested steps.
pub open spec fn render_at(s: Seq<CheckedTypeView>, id: CheckedTypeId, fuel: nat) -> Seq<char>
    decreases fuel, 0nat,
{
    if id.0 >= s.len() || fuel == 0 {
        "unknown"@
    } else {
        let f = (fuel - 1) as nat;
        match s[id.0 as int] {
            CheckedTypeView::Builtin(b) => builtin_spelling(b),
            CheckedTypeView::Declared { name, args, .. } => if args.len() == 0 {
                name
            } else {
                name + "["@ + render_list(s, args, f) + "]"@
            },
            CheckedTypeView::Channel { element_type } => "chn["@ + render_at(s, element_type, f)
                + "]"@,
            CheckedTypeView::ChannelSender { element_type } => "chn[tx, "@ + render_at(
                s,
                element_type,
                f,
            ) + "]"@,
            CheckedTypeView::ChannelReceiver { element_type } => "chn[rx, "@ + render_at(
                s,
                element_type,
                f,
            ) + "]"@,
            CheckedTypeView::Eventual { value_type, error_type } => match error_type {
                Some(e) => "evt["@ + render_at(s, value_type, f) + " / "@ + render_at(s, e, f)
                    + "]"@,
                None => "evt["@ + render_at(s, value_type, f) + "]"@,
            },
            CheckedTypeView::Optional { inner } => "opt["@ + render_at(s, inner, f) + "]"@,
            CheckedTypeView::Owned { inner } => "@"@ + render_at(s, inner, f),
            CheckedTypeView::Borrowed { inner, mutable } => if mutable {
                "bor[mut, "@ + render_at(s, inner, f) + "]"@
            } else {
                "bor["@ + render_at(s, inner, f) + "]"@
            },
            CheckedTypeView::Pointer { target, shared, weak, sync, .. } => if weak {
                "ptr[weak, "@ + render_at(s, target, f) + "]"@
            } else if shared && sync {
                "ptr[shared, sync, "@ + render_at(s, target, f) + "]"@
            } else if shared {
                "ptr[shared, "@ + render_at(s, target, f) + "]"@
            } else {
                "ptr["@ + render_at(s, target, f) + "]"@
            },
            CheckedTypeView::Error { inner } => match inner {
                Some(i) => "err["@ + render_at(s, i, f) + "]"@,
                None => "err[]"@,
            },
            CheckedTypeView::Array { element_type, .. } => "["@ + render_at(s, element_type, f)
                + "]"@,
            CheckedTypeView::Vector { element_type } => "vec["@ + render_at(s, element_type, f)
                + "]"@,
            CheckedTypeView::Sequence { element_type } => "seq["@ + render_at(s, element_type, f)
                + "]"@,
            CheckedTypeView::SetOf { member_types } => "set["@ + render_list(s, member_types, f)
                + "]"@,
            CheckedTypeView::MapOf { key_type, value_type } => "map["@ + render_at(s, key_type, f)
                + ", "@ + render_at(s, value_type, f) + "]"@,
            CheckedTypeView::Routine(r) => {
                let head = "fun("@ + render_list(s, r.params, f) + "): "@ + match r.return_type {
                    Some(x) => render_at(s, x, f),
                    None => "void"@,
                };
                match r.error_type {
                    Some(e) => head + " / "@ + render_at(s, e, f),
                    None => head,
                }
            },
            CheckedTypeView::Record { fields } => "rec { "@ + render_fields(s, fields, f)
                + " }"@,
            CheckedTypeView::Entry { variants } => "ent { "@ + render_variants(s, variants, f)
                + " }"@,
        }
    }
}

/// Renders a list of types joined by ", ".
pub open spec fn render_list(s: Seq<CheckedTypeView>, ids: Seq<CheckedTypeId>, fuel: nat) -> Seq<
    char,
>
    decreases fuel, ids.len() + 1,
{
    if ids.len() == 0 {
        seq![]
    } else if ids.len() == 1 {
        render_at(s, ids[0], fuel)
    } else {
        render_list(s, ids.drop_last(), fuel) + ", "@ + render_at(s, ids.last(), fuel)
    }
}

/// Renders record fields as `name: type`, joined by ", ".
pub open spec fn render_fields(
    s: Seq<CheckedTypeView>,
    fields: Seq<(Seq<char>, CheckedTypeId)>,
    fuel: nat,
) -> Seq<char>
    decreases fuel, fields.len() + 1,
{
    if fields.len() == 0 {
        seq![]
    } else {
        let last = fields.last();
        let item = last.0 + ": "@ + render_at(s, last.1, fuel);
        if fields.len() == 1 {
            item
        } else {
            render_fields(s, fields.drop_last(), fuel) + ", "@ + item
        }
    }
}

/// Renders entry variants as `name` or `name: payload`, joined by ", ".
pub open spec fn render_variants(
    s: Seq<CheckedTypeView>,
    variants: Seq<(Seq<char>, Option<CheckedTypeId>)>,
    fuel: nat,
) -> Seq<char>
    decreases fuel, variants.len() + 1,
{
    if variants.len() == 0 {
        seq![]
    } else {
        let last = variants.last();
        let item = match last.1 {
            Some(p) => last.0 + ": "@ + render_at(s, p, fuel),
            None => last.0,
        };
        if variants.len() == 1 {
            item
        } else {
            render_variants(s, variants.drop_last(), fuel) + ", "@ + item
        }
    }
}

/// The rendering of `id` in a table without cycles.
pub open spec fn rendered(s: Seq<CheckedTypeView>, id: CheckedTypeId) -> Seq<char> {
    render_at(s, id, s.len() + 1)
}

/// `text` followed by the rendering of `id` and then `close`.
fn wrapped(
    table: &TypeTable,
    open: &str,
    id: CheckedTypeId,
    close: &str,
    Ghost(rank): Ghost<Seq<nat>>,
    Ghost(fuel): Ghost<nat>,
) -> (r: String)
    requires
        ranked_by(table@, rank),
        id.0 < table@.len() ==> rank[id.0 as int] < fuel,
    ensures
        r@ == open@ + render_at(table@, id, fuel) + close@,
    decreases fuel, 1nat,
{
    let mut buf = String::new();
    push_text(&mut buf, open);
    let inner = table.render_rec(id, Ghost(rank), Ghost(fuel));
    push_text(&mut buf, inner.as_str());
    push_text(&mut buf, close);
    proof {
        assert(buf@ =~= open@ + render_at(table@, id, fuel) + close@);
    }
    buf
}

/// The renderings of `ids` joined by ", ".
fn render_ids(
    table: &TypeTable,
    ids: &Vec<CheckedTypeId>,
    Ghost(rank): Ghost<Seq<nat>>,
    Ghost(fuel): Ghost<nat>,
) -> (r: String)
    requires
        ranked_by(table@, rank),
        forall|k: int|
            0 <= k < ids@.len() && ids@[k].0 < table@.len() ==> rank[ids@[k].0 as int] < fuel,
    ensures
        r@ == render_list(table@, ids@, fuel),
    decreases fuel, 1nat,
{
    proof {
        reveal_strlit(", ");
    }
    let mut buf = String::new();
    let mut i: usize = 0;
    while i < ids.len()
        invariant
            i <= ids@.len(),
            ranked_by(table@, rank),
            forall|k: int|
                0 <= k < ids@.len() && ids@[k].0 < table@.len() ==> rank[ids@[k].0 as int]
                    < fuel,
            buf@ == render_list(table@, ids@.take(i as int), fuel),
        decreases ids@.len() - i,
    {
        let part = table.render_rec(ids[i], Ghost(rank), Ghost(fuel));
        if i > 0 {
            push_text(&mut buf, ", ");
        }
        push_text(&mut buf, part.as_str());
        proof {
            let t = ids@.take(i + 1);
            assert(t.drop_last() =~= ids@.take(i as int));
            assert(t.last() == ids@[i as int]);
            if i == 0 {
                assert(t.len() == 1);
                assert(render_list(table@, ids@.take(0), fuel) =~= Seq::<char>::empty());
                assert(buf@ =~= render_list(table@, t, fuel));
            } else {
                assert(buf@ =~= render_list(table@, t, fuel));
            }
        }
        i = i + 1;
    }
    proof {
        assert(ids@.take(ids@.len() as int) =~= ids@);
    }
    buf
}


/// The record fields rendered as `name: type`, joined by ", ".
fn render_field_list(
    table: &TypeTable,
    fields: &SortedMap<String, CheckedTypeId>,
    Ghost(rank): Ghost<Seq<nat>>,
    Ghost(fuel): Ghost<nat>,
) -> (r: String)
    requires
        ranked_by(table@, rank),
        forall|k: int|
            0 <= k < fields.entries().len() && (fields.entries()[k].1).0 < table@.len()
                ==> rank[(fields.entries()[k].1).0 as int] < fuel,
    ensures
        r@ == render_fields(table@, fields.entries(), fuel),
    decreases fuel, 1nat,
{
    proof {
        reveal_strlit(", ");
        reveal_strlit(": ");
    }
    let mut buf = String::new();
    let mut i: usize = 0;
    while i < fields.len()
        invariant
            i <= fields.entries().len(),
            ranked_by(table@, rank),
            forall|k: int|
                0 <= k < fields.entries().len() && (fields.entries()[k].1).0 < table@.len()
                    ==> rank[(fields.entries()[k].1).0 as int] < fuel,
            buf@ == render_fields(table@, fields.entries().take(i as int), fuel),
        decreases fields.entries().len() - i,
    {
        let name = fields.key_at(i);
        let field_type = *fields.value_at(i);
        let part = table.render_rec(field_type, Ghost(rank), Ghost(fuel));
        if i > 0 {
            push_text(&mut buf, ", ");
        }
        push_text(&mut buf, name.as_str());
        push_text(&mut buf, ": ");
        push_text(&mut buf, part.as_str());
        proof {
            let t = fields.entries().take(i + 1);
            assert(t.drop_last() =~= fields.entries().take(i as int));
            assert(t.last() == fields.entries()[i as int]);
            if i == 0 {
                assert(render_fields(table@, fields.entries().take(0), fuel)
                    =~= Seq::<char>::empty());
            }
            assert(buf@ =~= render_fields(table@, t, fuel));
        }
        i = i + 1;
    }
    proof {
        assert(fields.entries().take(fields.entries().len() as int) =~= fields.entries());
    }
    buf
}

/// The entry variants rendered as `name` or `name: payload`, joined by ", ".
fn render_variant_list(
    table: &TypeTable,
    variants: &SortedMap<String, Option<CheckedTypeId>>,
    Ghost(rank): Ghost<Seq<nat>>,
    Ghost(fuel): Ghost<nat>,
) -> (r: String)
    requires
        ranked_by(table@, rank),
        forall|k: int|
            0 <= k < variants.entries().len() && variants.entries()[k].1 is Some
                && (variants.entries()[k].1->0).0 < table@.len() ==> rank[(variants.entries()[k].1->0).0 as int]
                < fuel,
    ensures
        r@ == render_variants(table@, variants.entries(), fuel),
    decreases fuel, 1nat,
{
    proof {
        reveal_strlit(", ");
        reveal_strlit(": ");
    }
    let mut buf = String::new();
    let mut i: usize = 0;
    while i < variants.len()
        invariant
            i <= variants.entries().len(),
            ranked_by(table@, rank),
            forall|k: int|
                0 <= k < variants.entries().len() && variants.entries()[k].1 is Some
                    && (variants.entries()[k].1->0).0 < table@.len()
                    ==> rank[(variants.entries()[k].1->0).0 as int] < fuel,
            buf@ == render_variants(table@, variants.entries().take(i as int), fuel),
        decreases variants.entries().len() - i,
    {
        let name = variants.key_at(i);
        let payload = *variants.value_at(i);
        if i > 0 {
            push_text(&mut buf, ", ");
        }
        push_text(&mut buf, name.as_str());
        match payload {
            Some(p) => {
                let part = table.render_rec(p, Ghost(rank), Ghost(fuel));
                push_text(&mut buf, ": ");
                push_text(&mut buf, part.as_str());
            },
            None => {},
        }
        proof {
            let t = variants.entries().take(i + 1);
            assert(t.drop_last() =~= variants.entries().take(i as int));
            assert(t.last() == variants.entries()[i as int]);
            if i == 0 {
                assert(render_variants(table@, variants.entries().take(0), fuel)
                    =~= Seq::<char>::empty());
            }
            assert(buf@ =~= render_variants(table@, t, fuel));
        }
        i = i + 1;
    }
    proof {
        assert(variants.entries().take(variants.entries().len() as int) =~= variants.entries());
    }
    buf
}

impl TypeTable {
    /// The FOL surface rendering of a type: builtins by their spelling,
    /// named types with their arguments, containers and shells with their
    /// component types, and `unknown` for an id the table does not hold.
    pub fn render_type(&self, type_id: CheckedTypeId) -> (r: String)
        requires
            type_id.0 < self@.len() ==> acyclic(self@),
        ensures
            r@ == rendered(self@, type_id),
    {
        if type_id.0 >= self.len() {
            proof {
                reveal_strlit("unknown");
            }
            return crate::text::owned("unknown");
        }
        let ghost rank = choose|rank: Seq<nat>| ranked_by(self@, rank);
        self.render_rec(type_id, Ghost(rank), Ghost((self@.len() + 1) as nat))
    }

    fn render_rec(&self, id: CheckedTypeId, Ghost(rank): Ghost<Seq<nat>>, Ghost(fuel): Ghost<nat>) -> (r:
        String)
        requires
            ranked_by(self@, rank),
            id.0 < self@.len() ==> rank[id.0 as int] < fuel,
        ensures
            r@ == render_at(self@, id, fuel),
        decreases fuel, 0nat,
    {
        proof {
            reveal_strlit("unknown");
            reveal_strlit("[");
            reveal_strlit("]");
            reveal_strlit("void");
            reveal_strlit(" / ");
            reveal_strlit(", ");
            reveal_strlit("err[]");
        }
        match self.get(id) {
            None => owned("unknown"),
            Some(ty) => {
                let ghost f = (fuel - 1) as nat;
                let ghost t = self@[id.0 as int];
                proof {
                    assert forall|c: CheckedTypeId| renders_into(t, c) && c.0 < self@.len() implies rank[c.0 as int]
                        < f by {
                        assert(renders_into(self@[id.0 as int], c));
                    }
                }
                match ty {
                    CheckedType::Builtin(b) => owned(b.as_str()),
                    CheckedType::Declared { name, args, .. } => {
                        if args.len() == 0 {
                            name.clone()
                        } else {
                            proof {
                                assert forall|k: int|
                                    0 <= k < args@.len() && args@[k].0 < self@.len() implies rank[args@[k].0 as int]
                                    < f by {
                                    assert(renders_into(t, args@[k]));
                                }
                            }
                            let mut buf = name.clone();
                            push_text(&mut buf, "[");
                            let inner = render_ids(self, args, Ghost(rank), Ghost(f));
                            push_text(&mut buf, inner.as_str());
                            push_text(&mut buf, "]");
                            proof {
                                assert(buf@ =~= render_at(self@, id, fuel));
                            }
                            buf
                        }
                    },
                    CheckedType::Channel { element_type } => {
                        proof {
                            assert(renders_into(t, *element_type));
                        }
                        wrapped(self, "chn[", *element_type, "]", Ghost(rank), Ghost(f))
                    },
                    CheckedType::ChannelSender { element_type } => {
                        proof {
                            assert(renders_into(t, *element_type));
                        }
                        wrapped(self, "chn[tx, ", *element_type, "]", Ghost(rank), Ghost(f))
                    },
                    CheckedType::ChannelReceiver { element_type } => {
                        proof {
                            assert(renders_into(t, *element_type));
                        }
                        wrapped(self, "chn[rx, ", *element_type, "]", Ghost(rank), Ghost(f))
                    },
                    CheckedType::Eventual { value_type, error_type } => {
                        proof {
                            assert(renders_into(t, *value_type));
                        }
                        match error_type {
                            Some(e) => {
                                proof {
                                    assert(renders_into(t, *e));
                                }
                                let mut buf = wrapped(
                                    self,
                                    "evt[",
                                    *value_type,
                                    " / ",
                                    Ghost(rank),
                                    Ghost(f),
                                );
                                let tail = self.render_rec(*e, Ghost(rank), Ghost(f));
                                push_text(&mut buf, tail.as_str());
                                push_text(&mut buf, "]");
                                proof {
                                    assert(buf@ =~= render_at(self@, id, fuel));
                                }
                                buf
                            },
                            None => wrapped(self, "evt[", *value_type, "]", Ghost(rank), Ghost(f)),
                        }
                    },
                    CheckedType::Optional { inner } => {
                        proof {
                            assert(renders_into(t, *inner));
                        }
                        wrapped(self, "opt[", *inner, "]", Ghost(rank), Ghost(f))
                    },
                    CheckedType::Owned { inner } => {
                        proof {
                            assert(renders_into(t, *inner));
                            reveal_strlit("");
                        }
                        let r = wrapped(self, "@", *inner, "", Ghost(rank), Ghost(f));
                        proof {
                            assert(r@ =~= render_at(self@, id, fuel));
                        }
                        r
                    },
                    CheckedType::Borrowed { inner, mutable } => {
                        proof {
                            assert(renders_into(t, *inner));
                        }
                        if *mutable {
                            wrapped(self, "bor[mut, ", *inner, "]", Ghost(rank), Ghost(f))
                        } else {
                            wrapped(self, "bor[", *inner, "]", Ghost(rank), Ghost(f))
                        }
                    },
                    CheckedType::Pointer { target, shared, weak, sync, .. } => {
                        proof {
                            assert(renders_into(t, *target));
                        }
                        if *weak {
                            wrapped(self, "ptr[weak, ", *target, "]", Ghost(rank), Ghost(f))
                        } else if *shared && *sync {
                            wrapped(self, "ptr[shared, sync, ", *target, "]", Ghost(rank), Ghost(f))
                        } else if *shared {
                            wrapped(self, "ptr[shared, ", *target, "]", Ghost(rank), Ghost(f))
                        } else {
                            wrapped(self, "ptr[", *target, "]", Ghost(rank), Ghost(f))
                        }
                    },
                    CheckedType::Error { inner } => match inner {
                        Some(i) => {
                            proof {
                                assert(renders_into(t, *i));
                            }
                            wrapped(self, "err[", *i, "]", Ghost(rank), Ghost(f))
                        },
                        None => owned("err[]"),
                    },
                    CheckedType::Array { element_type, .. } => {
                        proof {
                            assert(renders_into(t, *element_type));
                        }
                        wrapped(self, "[", *element_type, "]", Ghost(rank), Ghost(f))
                    },
                    CheckedType::Vector { element_type } => {
                        proof {
                            assert(renders_into(t, *element_type));
                        }
                        wrapped(self, "vec[", *element_type, "]", Ghost(rank), Ghost(f))
                    },
                    CheckedType::Sequence { element_type } => {
                        proof {
                            assert(renders_into(t, *element_type));
                        }
                        wrapped(self, "seq[", *element_type, "]", Ghost(rank), Ghost(f))
                    },
                    CheckedType::SetOf { member_types } => {
                        proof {
                            assert forall|k: int|
                                0 <= k < member_types@.len() && member_types@[k].0 < self@.len() implies rank[member_types@[k].0 as int]
                                < f by {
                                assert(renders_into(t, member_types@[k]));
                            }
                        }
                        let mut buf = owned("set[");
                        let inner = render_ids(self, member_types, Ghost(rank), Ghost(f));
                        push_text(&mut buf, inner.as_str());
                        push_text(&mut buf, "]");
                        proof {
                            assert(buf@ =~= render_at(self@, id, fuel));
                        }
                        buf
                    },
                    CheckedType::MapOf { key_type, value_type } => {
                        proof {
                            assert(renders_into(t, *key_type));
                            assert(renders_into(t, *value_type));
                        }
                        let mut buf = wrapped(self, "map[", *key_type, ", ", Ghost(rank), Ghost(f));
                        let tail = self.render_rec(*value_type, Ghost(rank), Ghost(f));
                        push_text(&mut buf, tail.as_str());
                        push_text(&mut buf, "]");
                        proof {
                            assert(buf@ =~= render_at(self@, id, fuel));
                        }
                        buf
                    },
                    CheckedType::Routine(routine) => {
                        proof {
                            assert forall|k: int|
                                0 <= k < routine.params@.len() && routine.params@[k].0 < self@.len() implies rank[routine.params@[k].0 as int]
                                < f by {
                                assert(renders_into(t, routine.params@[k]));
                            }
                        }
                        let mut buf = owned("fun(");
                        let params = render_ids(self, &routine.params, Ghost(rank), Ghost(f));
                        push_text(&mut buf, params.as_str());
                        push_text(&mut buf, "): ");
                        match routine.return_type {
                            Some(x) => {
                                proof {
                                    assert(renders_into(t, x));
                                }
                                let ret = self.render_rec(x, Ghost(rank), Ghost(f));
                                push_text(&mut buf, ret.as_str());
                            },
                            None => push_text(&mut buf, "void"),
                        }
                        match routine.error_type {
                            Some(e) => {
                                proof {
                                    assert(renders_into(t, e));
                                }
                                let err = self.render_rec(e, Ghost(rank), Ghost(f));
                                push_text(&mut buf, " / ");
                                push_text(&mut buf, err.as_str());
                            },
                            None => {},
                        }
                        proof {
                            assert(buf@ =~= render_at(self@, id, fuel));
                        }
                        buf
                    },
                    CheckedType::Record { fields } => {
                        proof {
                            assert forall|k: int|
                                0 <= k < fields.entries().len() && (fields.entries()[k].1).0
                                    < self@.len() implies rank[(fields.entries()[k].1).0 as int]
                                < f by {
                                let fs = fields.entries();
                                assert(t == CheckedTypeView::Record { fields: fs });
                                assert(0 <= k < fs.len() && fs[k].1 == fs[k].1);
                                assert(renders_into(t, fs[k].1));
                            }
                        }
                        let mut buf = owned("rec { ");
                        let inner = render_field_list(self, fields, Ghost(rank), Ghost(f));
                        push_text(&mut buf, inner.as_str());
                        push_text(&mut buf, " }");
                        proof {
                            assert(buf@ =~= render_at(self@, id, fuel));
                        }
                        buf
                    },
                    CheckedType::Entry { variants } => {
                        proof {
                            assert forall|k: int|
                                0 <= k < variants.entries().len() && variants.entries()[k].1 is Some
                                    && (variants.entries()[k].1->0).0 < self@.len() implies rank[(variants.entries()[k].1->0).0 as int]
                                < f by {
                                assert(renders_into(t, variants.entries()[k].1->0));
                            }
                        }
                        let mut buf = owned("ent { ");
                        let inner = render_variant_list(self, variants, Ghost(rank), Ghost(f));
                        push_text(&mut buf, inner.as_str());
                        push_text(&mut buf, " }");
                        proof {
                            assert(buf@ =~= render_at(self@, id, fuel));
                        }
                        buf
                    },
                }
            },
        }
    }
}

} // verus!
