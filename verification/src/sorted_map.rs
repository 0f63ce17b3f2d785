//! Maps kept as vectors of entries sorted by key, with each key at most once.
//! They iterate in key order like a `BTreeMap`, and two maps with the same
//! contents have the same entry sequence, so they compare entry by entry.
use crate::text::{
    lemma_name_lt_asymmetric, lemma_name_lt_irreflexive, lemma_name_lt_total,
    lemma_name_lt_transitive, name_lt, str_lt,
};
use vstd::prelude::*;

verus! {

/// A key type with a strict total order on its views.
pub trait SortKey: View + Sized {
    spec fn key_lt(a: Self::V, b: Self::V) -> bool;

    proof fn lemma_key_order(a: Self::V, b: Self::V, c: Self::V)
        ensures
            !Self::key_lt(a, a),
            a == b || Self::key_lt(a, b) || Self::key_lt(b, a),
            !(Self::key_lt(a, b) && Self::key_lt(b, a)),
            Self::key_lt(a, b) && Self::key_lt(b, c) ==> Self::key_lt(a, c),
    ;

    fn less(&self, other: &Self) -> (r: bool)
        ensures
            r == Self::key_lt(self@, other@),
    ;

    fn same(&self, other: &Self) -> (r: bool)
        ensures
            r == (self@ == other@),
    ;

    fn copy_key(&self) -> (r: Self)
        ensures
            r@ == self@,
    ;
}

/// Values that can be copied with the same deep view.
pub trait Duplicate: DeepView + Sized {
    fn duplicate(&self) -> (r: Self)
        ensures
            r.deep_view() == self.deep_view(),
    ;
}

impl Duplicate for usize {
    fn duplicate(&self) -> (r: usize) {
        *self
    }
}

impl Duplicate for () {
    fn duplicate(&self) -> (r: ()) {
    }
}

impl Duplicate for String {
    fn duplicate(&self) -> (r: String) {
        self.clone()
    }
}

impl<T: Duplicate> Duplicate for Vec<T> {
    fn duplicate(&self) -> (r: Vec<T>) {
        let mut out: Vec<T> = Vec::new();
        let mut i: usize = 0;
        while i < self.len()
            invariant
                i <= self@.len(),
                out@.len() == i,
                forall|j: int| 0 <= j < i ==> #[trigger] out@[j].deep_view() == self@[j].deep_view(),
            decreases self@.len() - i,
        {
            out.push(self[i].duplicate());
            i = i + 1;
        }
        assert(out.deep_view() =~= self.deep_view());
        out
    }
}

impl SortKey for usize {
    open spec fn key_lt(a: usize, b: usize) -> bool {
        a < b
    }

    proof fn lemma_key_order(a: usize, b: usize, c: usize) {
    }

    fn less(&self, other: &usize) -> (r: bool) {
        *self < *other
    }

    fn same(&self, other: &usize) -> (r: bool) {
        *self == *other
    }

    fn copy_key(&self) -> (r: usize) {
        *self
    }
}

impl SortKey for String {
    open spec fn key_lt(a: Seq<char>, b: Seq<char>) -> bool {
        name_lt(a, b)
    }

    proof fn lemma_key_order(a: Seq<char>, b: Seq<char>, c: Seq<char>) {
        lemma_name_lt_irreflexive(a);
        lemma_name_lt_total(a, b);
        lemma_name_lt_asymmetric(a, b);
        if name_lt(a, b) && name_lt(b, c) {
            lemma_name_lt_transitive(a, b, c);
        }
    }

    fn less(&self, other: &String) -> (r: bool) {
        str_lt(self.as_str(), other.as_str())
    }

    fn same(&self, other: &String) -> (r: bool) {
        self.eq(other)
    }

    fn copy_key(&self) -> (r: String) {
        self.clone()
    }
}

/// Entries whose keys strictly increase.
pub open spec fn keys_increasing<K: SortKey, V>(s: Seq<(K::V, V)>) -> bool {
    forall|i: int, j: int| 0 <= i < j < s.len() ==> K::key_lt(s[i].0, s[j].0)
}

/// The views of a list of keys.
pub open spec fn key_views<K: View>(keys: Seq<K>) -> Seq<K::V> {
    keys.map_values(|k: K| k@)
}

/// Whether an entry with key `k` is present.
pub open spec fn seq_has_key<KV, V>(s: Seq<(KV, V)>, k: KV) -> bool {
    exists|i: int| 0 <= i < s.len() && s[i].0 == k
}

/// The position of key `k` (meaningful when present).
pub open spec fn seq_key_index<KV, V>(s: Seq<(KV, V)>, k: KV) -> int {
    choose|i: int| 0 <= i < s.len() && s[i].0 == k
}

/// The entries read as a finite map.
pub open spec fn seq_to_map<KV, V>(s: Seq<(KV, V)>) -> Map<KV, V> {
    Map::new(|k: KV| seq_has_key(s, k), |k: KV| s[seq_key_index(s, k)].1)
}

/// Extending a prefix of increasing entries by the next entry adds that
/// entry to the map read off the prefix.
pub proof fn lemma_prefix_map_step<K: SortKey, V>(s: Seq<(K::V, V)>, i: int)
    requires
        keys_increasing::<K, V>(s),
        0 <= i < s.len(),
    ensures
        seq_to_map(s.take(i + 1)) == seq_to_map(s.take(i)).insert(s[i].0, s[i].1),
        !seq_to_map(s.take(i)).contains_key(s[i].0),
{
    let a = s.take(i);
    let b = s.take(i + 1);
    assert(keys_increasing::<K, V>(a));
    assert(keys_increasing::<K, V>(b));
    if seq_has_key(a, s[i].0) {
        let p = seq_key_index(a, s[i].0);
        K::lemma_key_order(s[p].0, s[i].0, s[i].0);
    }
    assert forall|k: K::V| #[trigger] seq_to_map(b).contains_key(k) == seq_to_map(a).insert(
        s[i].0,
        s[i].1,
    ).contains_key(k) by {
        if seq_has_key(b, k) {
            let p = seq_key_index(b, k);
            if p < i {
                assert(a[p].0 == k);
            }
        }
        if seq_has_key(a, k) {
            let p = seq_key_index(a, k);
            assert(b[p].0 == k);
        }
        if k == s[i].0 {
            assert(b[i].0 == k);
        }
    }
    assert forall|k: K::V| #[trigger] seq_to_map(b).contains_key(k) implies seq_to_map(b)[k]
        == seq_to_map(a).insert(s[i].0, s[i].1)[k] by {
        let p = seq_key_index(b, k);
        lemma_key_position::<K, V>(b, p);
        if p < i {
            lemma_key_position::<K, V>(a, p);
        }
    }
    assert(seq_to_map(b) =~= seq_to_map(a).insert(s[i].0, s[i].1));
}

/// The keys of the first `n` entries that satisfy `p`.
pub open spec fn keys_where<KV, V>(s: Seq<(KV, V)>, n: int, p: spec_fn((KV, V)) -> bool) -> Set<KV> {
    Set::new(|k: KV| exists|j: int| 0 <= j < n && s[j].0 == k && p(s[j]))
}

/// Looking at one more entry adds its key when it satisfies `p`.
pub proof fn lemma_keys_where_step<KV, V>(s: Seq<(KV, V)>, n: int, p: spec_fn((KV, V)) -> bool)
    requires
        0 <= n < s.len(),
    ensures
        keys_where(s, n + 1, p) == (if p(s[n]) {
            keys_where(s, n, p).insert(s[n].0)
        } else {
            keys_where(s, n, p)
        }),
{
    let want = if p(s[n]) {
        keys_where(s, n, p).insert(s[n].0)
    } else {
        keys_where(s, n, p)
    };
    assert forall|k: KV| #[trigger] keys_where(s, n + 1, p).contains(k) == want.contains(k) by {
        if keys_where(s, n + 1, p).contains(k) {
            let j = choose|j: int| 0 <= j < n + 1 && s[j].0 == k && p(s[j]);
            if j < n {
                assert(keys_where(s, n, p).contains(k));
            }
        }
        if keys_where(s, n, p).contains(k) {
            let j = choose|j: int| 0 <= j < n && s[j].0 == k && p(s[j]);
            assert(0 <= j < n + 1 && s[j].0 == k && p(s[j]));
        }
        if p(s[n]) && k == s[n].0 {
            assert(0 <= n < n + 1 && s[n].0 == k && p(s[n]));
        }
    }
    assert(keys_where(s, n + 1, p) =~= want);
}

/// Over all of increasing entries, the keys of the entries that satisfy `p`
/// are the keys the map read off them holds with a value satisfying it.
pub proof fn lemma_keys_where_all<K: SortKey, V>(s: Seq<(K::V, V)>, p: spec_fn((K::V, V)) -> bool)
    requires
        keys_increasing::<K, V>(s),
    ensures
        keys_where(s, s.len() as int, p) == Set::new(
            |k: K::V| seq_to_map(s).contains_key(k) && p((k, seq_to_map(s)[k])),
        ),
{
    let want = Set::new(|k: K::V| seq_to_map(s).contains_key(k) && p((k, seq_to_map(s)[k])));
    assert forall|k: K::V| #[trigger] keys_where(s, s.len() as int, p).contains(k)
        == want.contains(k) by {
        if keys_where(s, s.len() as int, p).contains(k) {
            let j = choose|j: int| 0 <= j < s.len() && s[j].0 == k && p(s[j]);
            lemma_key_position::<K, V>(s, j);
            assert(s[j] == (k, seq_to_map(s)[k]));
        }
        if want.contains(k) {
            let j = seq_key_index(s, k);
            lemma_key_position::<K, V>(s, j);
            assert(s[j] == (k, seq_to_map(s)[k]));
            assert(0 <= j < s.len() && s[j].0 == k && p(s[j]));
        }
    }
    assert(keys_where(s, s.len() as int, p) =~= want);
}

/// The map read off all entries is the map read off the full prefix.
pub proof fn lemma_full_prefix<KV, V>(s: Seq<(KV, V)>)
    ensures
        seq_to_map(s.take(s.len() as int)) == seq_to_map(s),
{
    assert(s.take(s.len() as int) =~= s);
}

/// In increasing entries, a key sits at exactly one position.
pub proof fn lemma_key_position<K: SortKey, V>(s: Seq<(K::V, V)>, i: int)
    requires
        keys_increasing::<K, V>(s),
        0 <= i < s.len(),
    ensures
        seq_has_key(s, s[i].0),
        seq_key_index(s, s[i].0) == i,
        seq_to_map(s).contains_key(s[i].0),
        seq_to_map(s)[s[i].0] == s[i].1,
{
    let k = s[i].0;
    assert(seq_has_key(s, k));
    let j = seq_key_index(s, k);
    if j < i {
        K::lemma_key_order(s[j].0, s[i].0, s[i].0);
    } else if i < j {
        K::lemma_key_order(s[i].0, s[j].0, s[j].0);
    }
}

/// A sorted map.
#[derive(Debug, PartialEq, Eq)]
pub struct SortedMap<K: SortKey, V> {
    entries: Vec<(K, V)>,
}

impl<K: SortKey, V> SortedMap<K, V> {
    /// The entries in key order, keys taken by view.
    pub closed spec fn entries(&self) -> Seq<(K::V, V)> {
        self.entries@.map_values(|e: (K, V)| (e.0@, e.1))
    }

    /// The contents as a map from key views to values.
    pub open spec fn as_map(&self) -> Map<K::V, V> {
        seq_to_map(self.entries())
    }

    /// Keys strictly increase.
    pub open spec fn wf(&self) -> bool {
        keys_increasing::<K, V>(self.entries())
    }

    #[verifier::type_invariant]
    pub closed spec fn entries_sorted(&self) -> bool {
        self.wf()
    }

    /// Every map keeps its keys strictly increasing.
    pub fn is_well_formed(&self) -> (r: bool)
        ensures
            r,
            self.wf(),
    {
        proof {
            use_type_invariant(self);
        }
        true
    }

    /// An empty map.
    pub fn new() -> (r: Self)
        ensures
            r.entries() == Seq::<(K::V, V)>::empty(),
            r.wf(),
            r.as_map() == Map::<K::V, V>::empty(),
    {
        let r = SortedMap { entries: Vec::new() };
        assert(r.entries() =~= Seq::<(K::V, V)>::empty());
        assert(r.as_map() =~= Map::<K::V, V>::empty());
        r
    }

    /// The number of entries.
    pub fn len(&self) -> (r: usize)
        ensures
            r == self.entries().len(),
    {
        self.entries.len()
    }

    /// Whether there are no entries.
    pub fn is_empty(&self) -> (r: bool)
        ensures
            r == (self.entries().len() == 0),
    {
        self.entries.len() == 0
    }

    /// The key of the entry at position `i`.
    pub fn key_at(&self, i: usize) -> (r: &K)
        requires
            i < self.entries().len(),
        ensures
            r@ == self.entries()[i as int].0,
    {
        &self.entries[i].0
    }

    /// The value of the entry at position `i`.
    pub fn value_at(&self, i: usize) -> (r: &V)
        requires
            i < self.entries().len(),
        ensures
            *r == self.entries()[i as int].1,
    {
        &self.entries[i].1
    }

    /// The position of `k`, if present.
    pub fn find(&self, k: &K) -> (r: Option<usize>)
        ensures
            match r {
                Some(i) => i < self.entries().len() && self.entries()[i as int].0 == k@,
                None => !seq_has_key(self.entries(), k@),
            },
    {
        proof {
            use_type_invariant(self);
        }
        let mut i: usize = 0;
        while i < self.entries.len()
            invariant
                i <= self.entries@.len(),
                self.entries().len() == self.entries@.len(),
                forall|j: int| 0 <= j < i ==> self.entries()[j].0 != k@,
            decreases self.entries@.len() - i,
        {
            if self.entries[i].0.same(k) {
                return Some(i);
            }
            i = i + 1;
        }
        None
    }

    /// The value stored under `k`.
    pub fn get(&self, k: &K) -> (r: Option<&V>)
        ensures
            match r {
                Some(v) => self.as_map().contains_key(k@) && *v == self.as_map()[k@],
                None => !self.as_map().contains_key(k@),
            },
    {
        proof {
            use_type_invariant(self);
        }
        match self.find(k) {
            Some(i) => {
                proof {
                    lemma_key_position::<K, V>(self.entries(), i as int);
                }
                Some(&self.entries[i].1)
            },
            None => None,
        }
    }

    /// The keys in increasing order.
    pub fn keys(&self) -> (r: Vec<K>)
        ensures
            key_views(r@) == self.entries().map_values(|e: (K::V, V)| e.0),
            self.wf(),
    {
        proof {
            use_type_invariant(self);
        }
        let mut out: Vec<K> = Vec::new();
        let mut i: usize = 0;
        while i < self.entries.len()
            invariant
                i <= self.entries@.len(),
                self.entries().len() == self.entries@.len(),
                out@.len() == i,
                key_views(out@) == self.entries().take(i as int).map_values(|e: (K::V, V)| e.0),
            decreases self.entries@.len() - i,
        {
            let k = self.entries[i].0.copy_key();
            let ghost before = out@;
            proof {
                assert(k@ == self.entries()[i as int].0);
            }
            out.push(k);
            proof {
                let want = self.entries().take(i + 1).map_values(|e: (K::V, V)| e.0);
                let had = self.entries().take(i as int).map_values(|e: (K::V, V)| e.0);
                assert(out@ == before.push(k));
                assert forall|j: int| 0 <= j < i + 1 implies #[trigger] key_views(out@)[j]
                    == want[j] by {
                    if j < i {
                        assert(key_views(before)[j] == had[j]);
                        assert(out@[j] == before[j]);
                    }
                }
                assert(key_views(out@) =~= want);
            }
            i = i + 1;
        }
        proof {
            assert(self.entries().take(i as int) =~= self.entries());
        }
        out
    }

    /// The values, in increasing order of their keys.
    pub fn values(&self) -> (r: Vec<&V>)
        ensures
            r@.len() == self.entries().len(),
            forall|i: int| 0 <= i < r@.len() ==> *r@[i] == self.entries()[i].1,
    {
        let mut out: Vec<&V> = Vec::new();
        let mut i: usize = 0;
        while i < self.entries.len()
            invariant
                i <= self.entries@.len(),
                self.entries().len() == self.entries@.len(),
                out@.len() == i,
                forall|j: int| 0 <= j < i ==> *out@[j] == self.entries()[j].1,
            decreases self.entries@.len() - i,
        {
            out.push(&self.entries[i].1);
            i = i + 1;
        }
        out
    }

    /// Whether `k` is present.
    pub fn contains_key(&self, k: &K) -> (r: bool)
        ensures
            r == self.as_map().contains_key(k@),
    {
        self.find(k).is_some()
    }

    /// Stores `v` under `k`, replacing any earlier value; returns the earlier
    /// value.
    pub fn insert(&mut self, k: K, v: V) -> (r: Option<V>)
        ensures
            final(self).wf(),
            old(self).wf(),
            final(self).as_map() == old(self).as_map().insert(k@, v),
            match r {
                Some(w) => old(self).as_map().contains_key(k@) && w == old(self).as_map()[k@],
                None => !old(self).as_map().contains_key(k@),
            },
    {
        proof {
            use_type_invariant(&*self);
        }
        let ghost old_entries = self.entries();
        let mut i: usize = 0;
        let mut searching = true;
        while searching && i < self.entries.len()
            invariant
                i <= self.entries@.len(),
                self.entries() == old_entries,
                keys_increasing::<K, V>(old_entries),
                forall|j: int| 0 <= j < i ==> K::key_lt(old_entries[j].0, k@),
                !searching ==> i < old_entries.len() && !K::key_lt(old_entries[i as int].0, k@),
            decreases self.entries@.len() - i, if searching { 1int } else { 0int },
        {
            if self.entries[i].0.less(&k) {
                i = i + 1;
            } else {
                searching = false;
            }
        }
        let ghost at = i as int;
        proof {
            assert forall|j: int| at <= j < old_entries.len() implies !K::key_lt(
                old_entries[j].0,
                k@,
            ) by {
                if at < j {
                    K::lemma_key_order(old_entries[at].0, old_entries[j].0, k@);
                    K::lemma_key_order(old_entries[j].0, k@, old_entries[at].0);
                    K::lemma_key_order(k@, old_entries[at].0, old_entries[j].0);
                }
            }
        }
        if i < self.entries.len() && self.entries[i].0.same(&k) {
            let mut entries: Vec<(K, V)> = Vec::new();
            std::mem::swap(&mut entries, &mut self.entries);
            let old_entry = entries.remove(i);
            entries.insert(i, (k, v));
            proof {
                assert(entries@.map_values(|e: (K, V)| (e.0@, e.1)) =~= old_entries.update(
                    i as int,
                    (k@, v),
                ));
                assert forall|a: int, b: int| 0 <= a < b < entries@.len() implies K::key_lt(
                    entries@[a].0@,
                    entries@[b].0@,
                ) by {
                    assert(entries@[a].0@ == old_entries[a].0);
                    assert(entries@[b].0@ == old_entries[b].0);
                }
            }
            self.entries = entries;
            proof {
                let ne = self.entries();
                assert(ne =~= old_entries.update(at, (k@, v)));
                assert forall|a: int, b: int| 0 <= a < b < ne.len() implies K::key_lt(
                    ne[a].0,
                    ne[b].0,
                ) by {
                    assert(ne[a].0 == old_entries[a].0);
                    assert(ne[b].0 == old_entries[b].0);
                }
                lemma_key_position::<K, V>(old_entries, at);
                assert forall|key: K::V| #[trigger]
                    self.as_map().contains_key(key) == old(self).as_map().insert(
                        k@,
                        v,
                    ).contains_key(key) by {
                    if seq_has_key(old_entries, key) {
                        let p = seq_key_index(old_entries, key);
                        assert(ne[p].0 == key);
                    }
                    if seq_has_key(ne, key) {
                        let p = seq_key_index(ne, key);
                        if p != at {
                            assert(old_entries[p].0 == key);
                        }
                    }
                }
                assert forall|key: K::V| #[trigger] self.as_map().contains_key(key) implies self.as_map()[key]
                    == old(self).as_map().insert(k@, v)[key] by {
                    let p = seq_key_index(ne, key);
                    lemma_key_position::<K, V>(ne, p);
                    if p != at {
                        lemma_key_position::<K, V>(old_entries, p);
                    }
                }
                assert(self.as_map() =~= old(self).as_map().insert(k@, v));
            }
            Some(old_entry.1)
        } else {
            let mut entries: Vec<(K, V)> = Vec::new();
            std::mem::swap(&mut entries, &mut self.entries);
            entries.insert(i, (k, v));
            proof {
                let ne = entries@.map_values(|e: (K, V)| (e.0@, e.1));
                assert(ne =~= old_entries.insert(at, (k@, v)));
                if at < old_entries.len() {
                    K::lemma_key_order(k@, old_entries[at].0, k@);
                }
                assert forall|a: int, b: int| 0 <= a < b < ne.len() implies K::key_lt(
                    ne[a].0,
                    ne[b].0,
                ) by {
                    if b == at {
                    } else if a == at {
                        K::lemma_key_order(k@, old_entries[at].0, old_entries[b - 1].0);
                        if at < b - 1 {
                            assert(K::key_lt(old_entries[at].0, old_entries[b - 1].0));
                        }
                    } else if a < at && at < b {
                        K::lemma_key_order(old_entries[a].0, k@, old_entries[b - 1].0);
                        K::lemma_key_order(k@, old_entries[at].0, old_entries[b - 1].0);
                        if at < b - 1 {
                            assert(K::key_lt(old_entries[at].0, old_entries[b - 1].0));
                        }
                    }
                }
            }
            self.entries = entries;
            proof {
                let ne = self.entries();
                assert(ne =~= old_entries.insert(at, (k@, v)));
                if at < old_entries.len() {
                    K::lemma_key_order(k@, old_entries[at].0, k@);
                }
                assert forall|a: int, b: int| 0 <= a < b < ne.len() implies K::key_lt(
                    ne[a].0,
                    ne[b].0,
                ) by {
                    if b == at {
                    } else if a == at {
                        K::lemma_key_order(k@, old_entries[at].0, old_entries[b - 1].0);
                        if at < b - 1 {
                            assert(K::key_lt(old_entries[at].0, old_entries[b - 1].0));
                        }
                    } else if a < at && at < b {
                        K::lemma_key_order(old_entries[a].0, k@, old_entries[b - 1].0);
                        K::lemma_key_order(k@, old_entries[at].0, old_entries[b - 1].0);
                        if at < b - 1 {
                            assert(K::key_lt(old_entries[at].0, old_entries[b - 1].0));
                        }
                    }
                }
                assert(!seq_has_key(old_entries, k@)) by {
                    if seq_has_key(old_entries, k@) {
                        let p = seq_key_index(old_entries, k@);
                        K::lemma_key_order(k@, k@, k@);
                        if p < at {
                        } else {
                            K::lemma_key_order(k@, old_entries[at].0, k@);
                            if at < p {
                                assert(K::key_lt(old_entries[at].0, old_entries[p].0));
                            }
                        }
                    }
                }
                assert forall|key: K::V| #[trigger]
                    self.as_map().contains_key(key) == old(self).as_map().insert(
                        k@,
                        v,
                    ).contains_key(key) by {
                    if seq_has_key(old_entries, key) {
                        let p = seq_key_index(old_entries, key);
                        if p < at {
                            assert(ne[p].0 == key);
                        } else {
                            assert(ne[p + 1].0 == key);
                        }
                    }
                    if seq_has_key(ne, key) {
                        let p = seq_key_index(ne, key);
                        if p < at {
                            assert(old_entries[p].0 == key);
                        } else if p > at {
                            assert(old_entries[p - 1].0 == key);
                        }
                    }
                    if key == k@ {
                        assert(ne[at].0 == key);
                    }
                }
                assert forall|key: K::V| #[trigger] self.as_map().contains_key(key) implies self.as_map()[key]
                    == old(self).as_map().insert(k@, v)[key] by {
                    let p = seq_key_index(ne, key);
                    lemma_key_position::<K, V>(ne, p);
                    if p < at {
                        lemma_key_position::<K, V>(old_entries, p);
                    } else if p > at {
                        lemma_key_position::<K, V>(old_entries, p - 1);
                    }
                }
                assert(self.as_map() =~= old(self).as_map().insert(k@, v));
            }
            None
        }
    }

    /// Removes the entries of every key in `keys`.
    pub fn remove_keys(&mut self, keys: &Vec<K>)
        ensures
            final(self).wf(),
            final(self).as_map() == old(self).as_map().remove_keys(
                key_views(keys@).to_set(),
            ),
    {
        let ghost gone = key_views(keys@);
        let mut i: usize = 0;
        while i < keys.len()
            invariant
                i <= keys@.len(),
                gone == key_views(keys@),
                self.as_map() == old(self).as_map().remove_keys(gone.take(i as int).to_set()),
            decreases keys@.len() - i,
        {
            self.remove(&keys[i]);
            proof {
                let t0 = gone.take(i as int);
                let t1 = gone.take(i + 1);
                assert(t1 =~= t0.push(gone[i as int]));
                assert forall|x: K::V| #[trigger] t1.contains(x) == (t0.contains(x) || x
                    == gone[i as int]) by {
                    if t1.contains(x) {
                        let j = choose|j: int| 0 <= j < t1.len() && t1[j] == x;
                        if j < i {
                            assert(t0[j] == x);
                        }
                    }
                    if t0.contains(x) {
                        let j = choose|j: int| 0 <= j < t0.len() && t0[j] == x;
                        assert(t1[j] == x);
                    }
                    if x == gone[i as int] {
                        assert(t1[i as int] == x);
                    }
                }
                assert(t1.to_set() =~= t0.to_set().insert(keys@[i as int]@));
                assert(self.as_map() =~= old(self).as_map().remove_keys(
                    gone.take(i + 1).to_set(),
                ));
            }
            i = i + 1;
        }
        proof {
            assert(gone.take(keys@.len() as int) =~= gone);
            use_type_invariant(&*self);
        }
    }

    /// Removes the entry for `k`; returns its value.
    pub fn remove(&mut self, k: &K) -> (r: Option<V>)
        ensures
            final(self).wf(),
            old(self).wf(),
            final(self).as_map() == old(self).as_map().remove(k@),
            match r {
                Some(w) => old(self).as_map().contains_key(k@) && w == old(self).as_map()[k@],
                None => !old(self).as_map().contains_key(k@),
            },
            final(self).entries() == (match r {
                Some(_) => old(self).entries().remove(
                    seq_key_index(old(self).entries(), k@),
                ),
                None => old(self).entries(),
            }),
    {
        proof {
            use_type_invariant(&*self);
        }
        let ghost old_entries = self.entries();
        match self.find(k) {
            None => {
                proof {
                    assert(self.as_map() =~= old(self).as_map().remove(k@));
                }
                None
            },
            Some(i) => {
                let mut entries: Vec<(K, V)> = Vec::new();
                std::mem::swap(&mut entries, &mut self.entries);
                let entry = entries.remove(i);
                proof {
                    let at = i as int;
                    let ne = entries@.map_values(|e: (K, V)| (e.0@, e.1));
                    assert(ne =~= old_entries.remove(at));
                    assert forall|a: int, b: int| 0 <= a < b < ne.len() implies K::key_lt(
                        ne[a].0,
                        ne[b].0,
                    ) by {
                        if a >= at {
                            assert(ne[a] == old_entries[a + 1]);
                        }
                        if b >= at {
                            assert(ne[b] == old_entries[b + 1]);
                        }
                    }
                }
                self.entries = entries;
                proof {
                    let at = i as int;
                    let ne = self.entries();
                    lemma_key_position::<K, V>(old_entries, at);
                    assert(ne =~= old_entries.remove(at));
                    assert forall|a: int, b: int| 0 <= a < b < ne.len() implies K::key_lt(
                        ne[a].0,
                        ne[b].0,
                    ) by {
                        if a >= at {
                            assert(ne[a] == old_entries[a + 1]);
                        }
                        if b >= at {
                            assert(ne[b] == old_entries[b + 1]);
                        }
                    }
                    assert forall|key: K::V| #[trigger]
                        self.as_map().contains_key(key) == old(self).as_map().remove(
                            k@,
                        ).contains_key(key) by {
                        if seq_has_key(old_entries, key) && key != k@ {
                            let p = seq_key_index(old_entries, key);
                            if p < at {
                                assert(ne[p].0 == key);
                            } else {
                                assert(ne[p - 1].0 == key);
                            }
                        }
                        if seq_has_key(ne, key) {
                            let p = seq_key_index(ne, key);
                            if p < at {
                                assert(old_entries[p].0 == key);
                                lemma_key_position::<K, V>(old_entries, p);
                            } else {
                                assert(old_entries[p + 1].0 == key);
                                lemma_key_position::<K, V>(old_entries, p + 1);
                            }
                        }
                    }
                    assert forall|key: K::V| #[trigger] self.as_map().contains_key(key) implies self.as_map()[key]
                        == old(self).as_map().remove(k@)[key] by {
                        let p = seq_key_index(ne, key);
                        lemma_key_position::<K, V>(ne, p);
                        if p < at {
                            lemma_key_position::<K, V>(old_entries, p);
                        } else {
                            lemma_key_position::<K, V>(old_entries, p + 1);
                        }
                    }
                    assert(self.as_map() =~= old(self).as_map().remove(k@));
                }
                Some(entry.1)
            },
        }
    }
}

impl<K: SortKey, V: DeepView> DeepView for SortedMap<K, V> {
    type V = Map<K::V, V::V>;

    open spec fn deep_view(&self) -> Map<K::V, V::V> {
        self.as_map().map_values(|v: V| v.deep_view())
    }
}

impl<K: SortKey, V: DeepView> SortedMap<K, V> {
    /// The entries in key order, values taken by deep view.
    pub open spec fn deep_entries(&self) -> Seq<(K::V, V::V)> {
        self.entries().map_values(|e: (K::V, V)| (e.0, e.1.deep_view()))
    }

    /// A map whose contents were replaced by an insert has the inserted
    /// value's deep view under the key.
    pub proof fn lemma_deep_insert(old_map: &Self, new_map: &Self, k: K::V, v: V)
        requires
            new_map.as_map() == old_map.as_map().insert(k, v),
        ensures
            new_map.deep_view() == old_map.deep_view().insert(k, v.deep_view()),
    {
        assert(new_map.deep_view() =~= old_map.deep_view().insert(k, v.deep_view()));
    }

    /// A map whose key was removed loses that key in its deep view.
    pub proof fn lemma_deep_remove(old_map: &Self, new_map: &Self, k: K::V)
        requires
            new_map.as_map() == old_map.as_map().remove(k),
        ensures
            new_map.deep_view() == old_map.deep_view().remove(k),
    {
        assert(new_map.deep_view() =~= old_map.deep_view().remove(k));
    }

    /// Removing keys removes them from the deep view.
    pub proof fn lemma_deep_remove_keys(old_map: &Self, new_map: &Self, keys: Set<K::V>)
        requires
            new_map.as_map() == old_map.as_map().remove_keys(keys),
        ensures
            new_map.deep_view() == old_map.deep_view().remove_keys(keys),
    {
        assert(new_map.deep_view() =~= old_map.deep_view().remove_keys(keys));
    }

    /// The deep view read off the deep entries.
    pub proof fn lemma_deep_view_from_entries(&self)
        requires
            self.wf(),
        ensures
            self.deep_view() == seq_to_map(self.deep_entries()),
    {
        let e = self.entries();
        let d = self.deep_entries();
        assert forall|k: K::V| #[trigger] self.deep_view().contains_key(k) == seq_to_map(
            d,
        ).contains_key(k) by {
            if seq_has_key(e, k) {
                let p = seq_key_index(e, k);
                assert(d[p].0 == k);
            }
            if seq_has_key(d, k) {
                let p = seq_key_index(d, k);
                assert(e[p].0 == k);
            }
        }
        assert forall|k: K::V| #[trigger] self.deep_view().contains_key(k) implies self.deep_view()[k]
            == seq_to_map(d)[k] by {
            let p = seq_key_index(e, k);
            lemma_key_position::<K, V>(e, p);
            assert(d[p].0 == k);
            let q = seq_key_index(d, k);
            assert(d[q].0 == k);
            assert(e[q].0 == k);
            lemma_key_position::<K, V>(e, q);
        }
        assert(self.deep_view() =~= seq_to_map(d));
    }
}

impl<K: SortKey, V: DeepView> SortedMap<K, V> {
    /// The deep entries keep the keys, so they too increase.
    pub proof fn lemma_deep_entries_increasing(&self)
        requires
            self.wf(),
        ensures
            keys_increasing::<K, V::V>(self.deep_entries()),
    {
        let d = self.deep_entries();
        let e = self.entries();
        assert forall|i: int, j: int| 0 <= i < j < d.len() implies K::key_lt(d[i].0, d[j].0) by {
            assert(d[i].0 == e[i].0);
            assert(d[j].0 == e[j].0);
        }
    }
}

impl<K: SortKey, V: Duplicate> SortedMap<K, V> {
    /// Copies in each entry of `other` whose key is missing here; entries
    /// already here keep their values.
    pub fn absorb_missing(&mut self, other: &Self)
        ensures
            final(self).deep_view() == other.deep_view().union_prefer_right(old(self).deep_view()),
    {
        other.is_well_formed();
        let ghost d = other.deep_entries();
        let ghost start = self.deep_view();
        proof {
            other.lemma_deep_entries_increasing();
            other.lemma_deep_view_from_entries();
            assert(seq_to_map(d.take(0)) =~= Map::<K::V, V::V>::empty());
            assert(self.deep_view() =~= seq_to_map(d.take(0)).union_prefer_right(start));
        }
        let mut i: usize = 0;
        while i < other.len()
            invariant
                i <= d.len(),
                d == other.deep_entries(),
                d.len() == other.entries().len(),
                keys_increasing::<K, V::V>(d),
                self.deep_view() == seq_to_map(d.take(i as int)).union_prefer_right(start),
            decreases d.len() - i,
        {
            let k = other.key_at(i);
            proof {
                lemma_prefix_map_step::<K, V::V>(d, i as int);
                assert(d[i as int].0 == k@);
            }
            if !self.contains_key(k) {
                let ghost before = *self;
                let v = other.value_at(i).duplicate();
                let ghost v_g = v;
                self.insert(k.copy_key(), v);
                proof {
                    Self::lemma_deep_insert(&before, self, k@, v_g);
                    assert(v_g.deep_view() == d[i as int].1);
                    assert(!before.deep_view().contains_key(k@));
                    assert(!start.contains_key(k@));
                    assert(seq_to_map(d.take(i + 1)) == seq_to_map(d.take(i as int)).insert(
                        k@,
                        d[i as int].1,
                    ));
                    assert(self.deep_view() =~= seq_to_map(d.take(i + 1)).union_prefer_right(
                        start,
                    ));
                }
            } else {
                proof {
                    assert(self.deep_view().contains_key(k@));
                    assert(!seq_to_map(d.take(i as int)).contains_key(k@));
                    assert(start.contains_key(k@));
                    assert(self.deep_view() =~= seq_to_map(d.take(i + 1)).union_prefer_right(
                        start,
                    ));
                }
            }
            i = i + 1;
        }
        proof {
            assert(d.take(i as int) =~= d);
        }
    }
}

impl<K: SortKey, V: Clone> Clone for SortedMap<K, V> {
    /// A copy with the same keys in the same order, each value cloned.
    fn clone(&self) -> (r: Self)
        ensures
            r.entries().len() == self.entries().len(),
            forall|i: int| 0 <= i < self.entries().len() ==> #[trigger] r.entries()[i].0 == self.entries()[i].0,
    {
        proof {
            use_type_invariant(self);
        }
        let mut out: Vec<(K, V)> = Vec::new();
        let mut i: usize = 0;
        while i < self.entries.len()
            invariant
                i <= self.entries@.len(),
                out@.len() == i,
                forall|j: int| 0 <= j < i ==> #[trigger] out@[j].0@ == self.entries@[j].0@,
            decreases self.entries@.len() - i,
        {
            let k = self.entries[i].0.copy_key();
            let v = self.entries[i].1.clone();
            out.push((k, v));
            i = i + 1;
        }
        proof {
            let e = out@.map_values(|x: (K, V)| (x.0@, x.1));
            assert forall|a: int, b: int| 0 <= a < b < e.len() implies K::key_lt(e[a].0, e[b].0) by {
                assert(self.entries()[a].0 == self.entries@[a].0@);
                assert(self.entries()[b].0 == self.entries@[b].0@);
            }
            assert(keys_increasing::<K, V>(e));
        }
        let r = SortedMap { entries: out };
        r
    }
}

impl<K: SortKey, V: Duplicate> Duplicate for SortedMap<K, V> {
    fn duplicate(&self) -> (r: Self) {
        proof {
            use_type_invariant(self);
        }
        let out = self.duplicate_entries();
        proof {
            self.lemma_deep_view_from_entries();
            out.lemma_deep_view_from_entries();
        }
        out
    }
}

impl<K: SortKey, V: Duplicate> SortedMap<K, V> {
    /// A copy with the same keys in the same order and the same deep values.
    pub fn duplicate_entries(&self) -> (r: Self)
        ensures
            r.deep_entries() == self.deep_entries(),
            r.wf(),
    {
        proof {
            use_type_invariant(self);
        }
        let mut out: Vec<(K, V)> = Vec::new();
        let mut i: usize = 0;
        while i < self.entries.len()
            invariant
                i <= self.entries@.len(),
                out@.len() == i,
                self.wf(),
                forall|j: int|
                    0 <= j < i ==> (#[trigger] out@[j]).0@ == self.entries@[j].0@
                        && out@[j].1.deep_view() == self.entries@[j].1.deep_view(),
            decreases self.entries@.len() - i,
        {
            let k = self.entries[i].0.copy_key();
            let v = self.entries[i].1.duplicate();
            out.push((k, v));
            i = i + 1;
        }
        proof {
            let oe = out@.map_values(|e: (K, V)| (e.0@, e.1));
            assert forall|a: int, b: int| 0 <= a < b < oe.len() implies K::key_lt(oe[a].0, oe[b].0) by {
                assert(oe[a].0 == self.entries()[a].0);
                assert(oe[b].0 == self.entries()[b].0);
            }
        }
        let r = SortedMap { entries: out };
        proof {
            assert(r.deep_entries() =~= self.deep_entries());
        }
        r
    }
}

/// Dropping the first of increasing entries drops its key from the map.
proof fn lemma_drop_first_map<K: SortKey, V>(s: Seq<(K::V, V)>)
    requires
        keys_increasing::<K, V>(s),
        s.len() > 0,
    ensures
        keys_increasing::<K, V>(s.drop_first()),
        seq_to_map(s.drop_first()) == seq_to_map(s).remove(s[0].0),
{
    let t = s.drop_first();
    assert forall|i: int, j: int| 0 <= i < j < t.len() implies K::key_lt(t[i].0, t[j].0) by {
        assert(t[i] == s[i + 1] && t[j] == s[j + 1]);
    }
    assert forall|k: K::V| #[trigger]
        seq_to_map(t).contains_key(k) == seq_to_map(s).remove(s[0].0).contains_key(k) by {
        if seq_has_key(t, k) {
            let j = choose|j: int| 0 <= j < t.len() && t[j].0 == k;
            assert(s[j + 1] == t[j]);
            assert(K::key_lt(s[0].0, s[j + 1].0));
            K::lemma_key_order(s[0].0, k, k);
            assert(seq_has_key(s, k));
        }
        if seq_has_key(s, k) && k != s[0].0 {
            let j = choose|j: int| 0 <= j < s.len() && s[j].0 == k;
            assert(j != 0);
            assert(t[j - 1] == s[j]);
            assert(seq_has_key(t, k));
        }
    }
    assert forall|k: K::V| #[trigger] seq_to_map(t).contains_key(k) implies seq_to_map(t)[k]
        == seq_to_map(s)[k] by {
        let j = choose|j: int| 0 <= j < t.len() && t[j].0 == k;
        lemma_key_position::<K, V>(t, j);
        assert(s[j + 1] == t[j]);
        lemma_key_position::<K, V>(s, j + 1);
    }
    assert(seq_to_map(t) =~= seq_to_map(s).remove(s[0].0));
}

/// Increasing entries are determined by the map they hold.
proof fn lemma_same_map_same_entries<K: SortKey, V>(s1: Seq<(K::V, V)>, s2: Seq<(K::V, V)>)
    requires
        keys_increasing::<K, V>(s1),
        keys_increasing::<K, V>(s2),
        seq_to_map(s1) == seq_to_map(s2),
    ensures
        s1 == s2,
    decreases s1.len(),
{
    if s1.len() == 0 || s2.len() == 0 {
        if s1.len() > 0 {
            lemma_key_position::<K, V>(s1, 0);
        }
        if s2.len() > 0 {
            lemma_key_position::<K, V>(s2, 0);
        }
        assert(s1 =~= s2);
    } else {
        lemma_key_position::<K, V>(s1, 0);
        lemma_key_position::<K, V>(s2, 0);
        let a = s1[0].0;
        let b = s2[0].0;
        let ja = seq_key_index(s2, a);
        let jb = seq_key_index(s1, b);
        lemma_key_position::<K, V>(s2, ja);
        lemma_key_position::<K, V>(s1, jb);
        if a != b {
            assert(ja != 0 && jb != 0);
            assert(K::key_lt(b, a));
            assert(K::key_lt(a, b));
            K::lemma_key_order(a, b, a);
        }
        assert(s1[0] == s2[0]);
        lemma_drop_first_map::<K, V>(s1);
        lemma_drop_first_map::<K, V>(s2);
        lemma_same_map_same_entries::<K, V>(s1.drop_first(), s2.drop_first());
        assert(s1 =~= seq![s1[0]] + s1.drop_first());
        assert(s2 =~= seq![s2[0]] + s2.drop_first());
    }
}

/// Two sorted maps with the same contents hold the same entries in the
/// same order, so values built from them, such as record types, are equal.
pub proof fn law_same_contents_same_entries<K: SortKey, V>(a: SortedMap<K, V>, b: SortedMap<K, V>)
    requires
        a.wf(),
        b.wf(),
        a.as_map() == b.as_map(),
    ensures
        a.entries() == b.entries(),
{
    lemma_same_map_same_entries::<K, V>(a.entries(), b.entries());
}

} // verus!
