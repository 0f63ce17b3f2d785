//! Semantic types and the table that interns them.
use crate::ids::{SymbolId, SyntaxNodeId};
use crate::sorted_map::{Duplicate, SortKey, SortedMap};
use crate::widths::{char_spelling, float_spelling, int_spelling, CharEncoding, FloatWidth, IntWidth};
use vstd::prelude::*;

verus! {

/// The position of an interned type in its `TypeTable`.
#[derive(Clone, Copy, Debug, PartialEq, Eq, Structural, Hash, PartialOrd, Ord)]
pub struct CheckedTypeId(pub usize);

impl View for CheckedTypeId {
    type V = CheckedTypeId;

    open spec fn view(&self) -> CheckedTypeId {
        *self
    }
}

impl DeepView for CheckedTypeId {
    type V = CheckedTypeId;

    open spec fn deep_view(&self) -> CheckedTypeId {
        *self
    }
}

impl Duplicate for CheckedTypeId {
    fn duplicate(&self) -> (r: CheckedTypeId) {
        *self
    }
}

impl SortKey for CheckedTypeId {
    open spec fn key_lt(a: CheckedTypeId, b: CheckedTypeId) -> bool {
        a.0 < b.0
    }

    proof fn lemma_key_order(a: CheckedTypeId, b: CheckedTypeId, c: CheckedTypeId) {
    }

    fn less(&self, other: &CheckedTypeId) -> (r: bool) {
        self.0 < other.0
    }

    fn same(&self, other: &CheckedTypeId) -> (r: bool) {
        self.0 == other.0
    }

    fn copy_key(&self) -> (r: CheckedTypeId) {
        *self
    }
}

/// The builtin scalar types.
#[derive(Clone, Copy, Debug, PartialEq, Eq, Structural, Hash)]
pub enum BuiltinType {
    /// Integers keep the width and sign they were written with; `int` is the
    /// default width.
    Int(IntWidth),
    Float(FloatWidth),
    Bool,
    Char(CharEncoding),
    Str,
    Never,
}

/// How a builtin scalar is spelled in FOL source.
pub open spec fn builtin_spelling(b: BuiltinType) -> Seq<char> {
    match b {
        BuiltinType::Int(w) => int_spelling(w),
        BuiltinType::Float(w) => float_spelling(w),
        BuiltinType::Bool => "bol"@,
        BuiltinType::Char(e) => char_spelling(e),
        BuiltinType::Str => "str"@,
        BuiltinType::Never => "never"@,
    }
}

impl BuiltinType {
    /// The FOL spelling of this scalar type.
    pub fn as_str(&self) -> (r: &'static str)
        ensures
            r@ == builtin_spelling(*self),
    {
        proof {
            reveal_strlit("bol");
            reveal_strlit("str");
            reveal_strlit("never");
        }
        match self {
            BuiltinType::Int(width) => width.fol_spelling(),
            BuiltinType::Float(width) => width.fol_spelling(),
            BuiltinType::Bool => "bol",
            BuiltinType::Char(encoding) => encoding.fol_spelling(),
            BuiltinType::Str => "str",
            BuiltinType::Never => "never",
        }
    }

    /// Every spelling that names a builtin scalar, including the sized ones.
    pub const ALL_NAMES: [&'static str; 23] = [
        "int",
        "flt",
        "bol",
        "chr",
        "str",
        "never",
        "utf8",
        "utf16",
        "utf32",
        "i8",
        "i16",
        "i32",
        "i64",
        "i128",
        "arch",
        "u8",
        "u16",
        "u32",
        "u64",
        "u128",
        "uarch",
        "f32",
        "f64",
    ];
}

/// What kind of declaration a named type refers to.
#[derive(Clone, Copy, Debug, PartialEq, Eq, Structural, Hash)]
pub enum DeclaredTypeKind {
    Type,
    Alias,
    GenericParameter,
}

/// A standard bound on a generic parameter with the type arguments it was
/// written with (`T: Holder[int]` records `[int]`; `T: geo` records none).
#[derive(Debug, Clone, PartialEq, Eq)]
pub struct GenericConstraint {
    pub standard: SymbolId,
    pub args: Vec<CheckedTypeId>,
}

/// The value of a `GenericConstraint`.
pub struct GenericConstraintView {
    pub standard: SymbolId,
    pub args: Seq<CheckedTypeId>,
}

impl View for GenericConstraint {
    type V = GenericConstraintView;

    open spec fn view(&self) -> GenericConstraintView {
        GenericConstraintView { standard: self.standard, args: self.args@ }
    }
}

/// A routine's callable type.
#[derive(Debug, Clone)]
pub struct RoutineType {
    pub generic_params: Vec<SymbolId>,
    pub generic_constraints: SortedMap<SymbolId, Vec<GenericConstraint>>,
    pub param_names: Vec<String>,
    /// The default expression of each parameter, by syntax node; only
    /// whether a default exists is part of the routine's identity.
    pub param_defaults: Vec<Option<SyntaxNodeId>>,
    pub variadic_index: Option<usize>,
    /// Parameter positions that carry a mutex handle.
    pub mutex_params: SortedMap<usize, ()>,
    pub params: Vec<CheckedTypeId>,
    pub return_type: Option<CheckedTypeId>,
    pub error_type: Option<CheckedTypeId>,
    /// Whether the routine type carries a `[bor=L]` environment lifetime.
    pub env_lifetime: bool,
}

/// The identity of a routine type: everything but the concrete default
/// expressions, of which only their presence counts.
pub struct RoutineTypeView {
    pub generic_params: Seq<SymbolId>,
    pub generic_constraints: Seq<(SymbolId, Seq<GenericConstraintView>)>,
    pub param_names: Seq<Seq<char>>,
    pub default_flags: Seq<bool>,
    pub variadic_index: Option<usize>,
    pub mutex_params: Seq<(usize, ())>,
    pub params: Seq<CheckedTypeId>,
    pub return_type: Option<CheckedTypeId>,
    pub error_type: Option<CheckedTypeId>,
    pub env_lifetime: bool,
}

/// The views of a list of names.
pub open spec fn names_view(names: Seq<String>) -> Seq<Seq<char>> {
    names.map_values(|s: String| s@)
}

/// The views of a list of constraints.
pub open spec fn constraints_view(list: Seq<GenericConstraint>) -> Seq<GenericConstraintView> {
    list.map_values(|g: GenericConstraint| g@)
}

/// Which parameters have a default.
pub open spec fn default_flags(defaults: Seq<Option<SyntaxNodeId>>) -> Seq<bool> {
    defaults.map_values(|d: Option<SyntaxNodeId>| d is Some)
}

/// The views of the constraint map entries.
pub open spec fn constraint_map_view(
    entries: Seq<(SymbolId, Vec<GenericConstraint>)>,
) -> Seq<(SymbolId, Seq<GenericConstraintView>)> {
    entries.map_values(
        |e: (SymbolId, Vec<GenericConstraint>)| (e.0, constraints_view(e.1@)),
    )
}

impl View for RoutineType {
    type V = RoutineTypeView;

    open spec fn view(&self) -> RoutineTypeView {
        RoutineTypeView {
            generic_params: self.generic_params@,
            generic_constraints: constraint_map_view(self.generic_constraints.entries()),
            param_names: names_view(self.param_names@),
            default_flags: default_flags(self.param_defaults@),
            variadic_index: self.variadic_index,
            mutex_params: self.mutex_params.entries(),
            params: self.params@,
            return_type: self.return_type,
            error_type: self.error_type,
            env_lifetime: self.env_lifetime,
        }
    }
}

impl PartialEq for RoutineType {
    /// Two routine types are the same when they agree in everything but the
    /// concrete default expressions, of which only their presence counts.
    fn eq(&self, other: &Self) -> (r: bool) {
        same_routine(self, other)
    }
}

impl Eq for RoutineType {

}

impl vstd::std_specs::cmp::PartialEqSpecImpl for RoutineType {
    open spec fn obeys_eq_spec() -> bool {
        true
    }

    open spec fn eq_spec(&self, other: &Self) -> bool {
        self@ == other@
    }
}

/// A checked semantic type. Component types are referenced by their id in
/// the owning `TypeTable`.
#[derive(Debug, Clone, PartialEq, Eq)]
pub enum CheckedType {
    Builtin(BuiltinType),
    Declared {
        symbol: SymbolId,
        name: String,
        kind: DeclaredTypeKind,
        /// Type arguments of a generic instantiation; part of the identity.
        args: Vec<CheckedTypeId>,
    },
    Array { element_type: CheckedTypeId, size: Option<usize> },
    Vector { element_type: CheckedTypeId },
    Sequence { element_type: CheckedTypeId },
    SetOf { member_types: Vec<CheckedTypeId> },
    MapOf { key_type: CheckedTypeId, value_type: CheckedTypeId },
    Channel { element_type: CheckedTypeId },
    ChannelSender { element_type: CheckedTypeId },
    ChannelReceiver { element_type: CheckedTypeId },
    Eventual { value_type: CheckedTypeId, error_type: Option<CheckedTypeId> },
    Optional { inner: CheckedTypeId },
    Owned { inner: CheckedTypeId },
    Borrowed { inner: CheckedTypeId, mutable: bool },
    Pointer {
        target: CheckedTypeId,
        shared: bool,
        /// A weak handle that does not keep the shared allocation alive.
        weak: bool,
        /// A thread-safe shared pointer.
        sync: bool,
        /// A foreign address token rather than a managed pointer.
        raw: bool,
        /// Whether the pointee may be written through.
        mutable: bool,
    },
    Error { inner: Option<CheckedTypeId> },
    Record { fields: SortedMap<String, CheckedTypeId> },
    Entry { variants: SortedMap<String, Option<CheckedTypeId>> },
    Routine(RoutineType),
}

/// The identity of a checked type.
pub enum CheckedTypeView {
    Builtin(BuiltinType),
    Declared { symbol: SymbolId, name: Seq<char>, kind: DeclaredTypeKind, args: Seq<CheckedTypeId> },
    Array { element_type: CheckedTypeId, size: Option<usize> },
    Vector { element_type: CheckedTypeId },
    Sequence { element_type: CheckedTypeId },
    SetOf { member_types: Seq<CheckedTypeId> },
    MapOf { key_type: CheckedTypeId, value_type: CheckedTypeId },
    Channel { element_type: CheckedTypeId },
    ChannelSender { element_type: CheckedTypeId },
    ChannelReceiver { element_type: CheckedTypeId },
    Eventual { value_type: CheckedTypeId, error_type: Option<CheckedTypeId> },
    Optional { inner: CheckedTypeId },
    Owned { inner: CheckedTypeId },
    Borrowed { inner: CheckedTypeId, mutable: bool },
    Pointer {
        target: CheckedTypeId,
        shared: bool,
        weak: bool,
        sync: bool,
        raw: bool,
        mutable: bool,
    },
    Error { inner: Option<CheckedTypeId> },
    Record { fields: Seq<(Seq<char>, CheckedTypeId)> },
    Entry { variants: Seq<(Seq<char>, Option<CheckedTypeId>)> },
    Routine(RoutineTypeView),
}

impl View for CheckedType {
    type V = CheckedTypeView;

    open spec fn view(&self) -> CheckedTypeView {
        match self {
            CheckedType::Builtin(b) => CheckedTypeView::Builtin(*b),
            CheckedType::Declared { symbol, name, kind, args } => CheckedTypeView::Declared {
                symbol: *symbol,
                name: name@,
                kind: *kind,
                args: args@,
            },
            CheckedType::Array { element_type, size } => CheckedTypeView::Array {
                element_type: *element_type,
                size: *size,
            },
            CheckedType::Vector { element_type } => CheckedTypeView::Vector {
                element_type: *element_type,
            },
            CheckedType::Sequence { element_type } => CheckedTypeView::Sequence {
                element_type: *element_type,
            },
            CheckedType::SetOf { member_types } => CheckedTypeView::SetOf {
                member_types: member_types@,
            },
            CheckedType::MapOf { key_type, value_type } => CheckedTypeView::MapOf {
                key_type: *key_type,
                value_type: *value_type,
            },
            CheckedType::Channel { element_type } => CheckedTypeView::Channel {
                element_type: *element_type,
            },
            CheckedType::ChannelSender { element_type } => CheckedTypeView::ChannelSender {
                element_type: *element_type,
            },
            CheckedType::ChannelReceiver { element_type } => CheckedTypeView::ChannelReceiver {
                element_type: *element_type,
            },
            CheckedType::Eventual { value_type, error_type } => CheckedTypeView::Eventual {
                value_type: *value_type,
                error_type: *error_type,
            },
            CheckedType::Optional { inner } => CheckedTypeView::Optional { inner: *inner },
            CheckedType::Owned { inner } => CheckedTypeView::Owned { inner: *inner },
            CheckedType::Borrowed { inner, mutable } => CheckedTypeView::Borrowed {
                inner: *inner,
                mutable: *mutable,
            },
            CheckedType::Pointer { target, shared, weak, sync, raw, mutable } =>
                CheckedTypeView::Pointer {
                target: *target,
                shared: *shared,
                weak: *weak,
                sync: *sync,
                raw: *raw,
                mutable: *mutable,
            },
            CheckedType::Error { inner } => CheckedTypeView::Error { inner: *inner },
            CheckedType::Record { fields } => CheckedTypeView::Record { fields: fields.entries() },
            CheckedType::Entry { variants } => CheckedTypeView::Entry {
                variants: variants.entries(),
            },
            CheckedType::Routine(r) => CheckedTypeView::Routine(r@),
        }
    }
}

pub(crate) fn same_ids(a: &Vec<CheckedTypeId>, b: &Vec<CheckedTypeId>) -> (r: bool)
    ensures
        r == (a@ == b@),
{
    if a.len() != b.len() {
        return false;
    }
    let mut i: usize = 0;
    while i < a.len()
        invariant
            a@.len() == b@.len(),
            i <= a@.len(),
            forall|j: int| 0 <= j < i ==> a@[j] == b@[j],
        decreases a@.len() - i,
    {
        if a[i].0 != b[i].0 {
            return false;
        }
        i = i + 1;
    }
    assert(a@ =~= b@);
    true
}

pub(crate) fn same_symbols(a: &Vec<SymbolId>, b: &Vec<SymbolId>) -> (r: bool)
    ensures
        r == (a@ == b@),
{
    if a.len() != b.len() {
        return false;
    }
    let mut i: usize = 0;
    while i < a.len()
        invariant
            a@.len() == b@.len(),
            i <= a@.len(),
            forall|j: int| 0 <= j < i ==> a@[j] == b@[j],
        decreases a@.len() - i,
    {
        if a[i].0 != b[i].0 {
            return false;
        }
        i = i + 1;
    }
    assert(a@ =~= b@);
    true
}

fn same_names(a: &Vec<String>, b: &Vec<String>) -> (r: bool)
    ensures
        r == (names_view(a@) == names_view(b@)),
{
    if a.len() != b.len() {
        assert(names_view(a@).len() != names_view(b@).len());
        return false;
    }
    let mut i: usize = 0;
    while i < a.len()
        invariant
            a@.len() == b@.len(),
            i <= a@.len(),
            forall|j: int| 0 <= j < i ==> a@[j]@ == b@[j]@,
        decreases a@.len() - i,
    {
        if !a[i].eq(&b[i]) {
            assert(names_view(a@)[i as int] != names_view(b@)[i as int]);
            return false;
        }
        i = i + 1;
    }
    assert(names_view(a@) =~= names_view(b@));
    true
}

fn same_default_flags(a: &Vec<Option<SyntaxNodeId>>, b: &Vec<Option<SyntaxNodeId>>) -> (r: bool)
    ensures
        r == (default_flags(a@) == default_flags(b@)),
{
    if a.len() != b.len() {
        assert(default_flags(a@).len() != default_flags(b@).len());
        return false;
    }
    let mut i: usize = 0;
    while i < a.len()
        invariant
            a@.len() == b@.len(),
            i <= a@.len(),
            forall|j: int| 0 <= j < i ==> (a@[j] is Some) == (b@[j] is Some),
        decreases a@.len() - i,
    {
        if a[i].is_some() != b[i].is_some() {
            assert(default_flags(a@)[i as int] != default_flags(b@)[i as int]);
            return false;
        }
        i = i + 1;
    }
    assert(default_flags(a@) =~= default_flags(b@));
    true
}

fn same_constraint(a: &GenericConstraint, b: &GenericConstraint) -> (r: bool)
    ensures
        r == (a@ == b@),
{
    a.standard.0 == b.standard.0 && same_ids(&a.args, &b.args)
}

fn same_constraint_list(a: &Vec<GenericConstraint>, b: &Vec<GenericConstraint>) -> (r: bool)
    ensures
        r == (constraints_view(a@) == constraints_view(b@)),
{
    if a.len() != b.len() {
        assert(constraints_view(a@).len() != constraints_view(b@).len());
        return false;
    }
    let mut i: usize = 0;
    while i < a.len()
        invariant
            a@.len() == b@.len(),
            i <= a@.len(),
            forall|j: int| 0 <= j < i ==> a@[j]@ == b@[j]@,
        decreases a@.len() - i,
    {
        if !same_constraint(&a[i], &b[i]) {
            assert(constraints_view(a@)[i as int] != constraints_view(b@)[i as int]);
            return false;
        }
        i = i + 1;
    }
    assert(constraints_view(a@) =~= constraints_view(b@));
    true
}

pub(crate) fn same_constraint_maps(
    a: &SortedMap<SymbolId, Vec<GenericConstraint>>,
    b: &SortedMap<SymbolId, Vec<GenericConstraint>>,
) -> (r: bool)
    ensures
        r == (constraint_map_view(a.entries()) == constraint_map_view(b.entries())),
{
    if a.len() != b.len() {
        assert(constraint_map_view(a.entries()).len() != constraint_map_view(b.entries()).len());
        return false;
    }
    let mut i: usize = 0;
    while i < a.len()
        invariant
            a.entries().len() == b.entries().len(),
            i <= a.entries().len(),
            forall|j: int|
                0 <= j < i ==> constraint_map_view(a.entries())[j] == constraint_map_view(
                    b.entries(),
                )[j],
        decreases a.entries().len() - i,
    {
        let ka = a.key_at(i);
        let kb = b.key_at(i);
        if ka.0 != kb.0 || !same_constraint_list(a.value_at(i), b.value_at(i)) {
            assert(constraint_map_view(a.entries())[i as int] != constraint_map_view(
                b.entries(),
            )[i as int]);
            return false;
        }
        i = i + 1;
    }
    assert(constraint_map_view(a.entries()) =~= constraint_map_view(b.entries()));
    true
}

pub(crate) fn same_positions(a: &SortedMap<usize, ()>, b: &SortedMap<usize, ()>) -> (r: bool)
    ensures
        r == (a.entries() == b.entries()),
{
    if a.len() != b.len() {
        return false;
    }
    let mut i: usize = 0;
    while i < a.len()
        invariant
            a.entries().len() == b.entries().len(),
            i <= a.entries().len(),
            forall|j: int| 0 <= j < i ==> a.entries()[j] == b.entries()[j],
        decreases a.entries().len() - i,
    {
        if *a.key_at(i) != *b.key_at(i) {
            return false;
        }
        i = i + 1;
    }
    assert(a.entries() =~= b.entries());
    true
}

fn same_fields(a: &SortedMap<String, CheckedTypeId>, b: &SortedMap<String, CheckedTypeId>) -> (r:
    bool)
    ensures
        r == (a.entries() == b.entries()),
{
    if a.len() != b.len() {
        return false;
    }
    let mut i: usize = 0;
    while i < a.len()
        invariant
            a.entries().len() == b.entries().len(),
            i <= a.entries().len(),
            forall|j: int| 0 <= j < i ==> a.entries()[j] == b.entries()[j],
        decreases a.entries().len() - i,
    {
        if !a.key_at(i).eq(b.key_at(i)) || a.value_at(i).0 != b.value_at(i).0 {
            return false;
        }
        i = i + 1;
    }
    assert(a.entries() =~= b.entries());
    true
}

fn same_variants(
    a: &SortedMap<String, Option<CheckedTypeId>>,
    b: &SortedMap<String, Option<CheckedTypeId>>,
) -> (r: bool)
    ensures
        r == (a.entries() == b.entries()),
{
    if a.len() != b.len() {
        return false;
    }
    let mut i: usize = 0;
    while i < a.len()
        invariant
            a.entries().len() == b.entries().len(),
            i <= a.entries().len(),
            forall|j: int| 0 <= j < i ==> a.entries()[j] == b.entries()[j],
        decreases a.entries().len() - i,
    {
        let same_payload = match (a.value_at(i), b.value_at(i)) {
            (Some(x), Some(y)) => x.0 == y.0,
            (None, None) => true,
            _ => false,
        };
        if !a.key_at(i).eq(b.key_at(i)) || !same_payload {
            return false;
        }
        i = i + 1;
    }
    assert(a.entries() =~= b.entries());
    true
}

pub(crate) fn same_opt_id(a: Option<CheckedTypeId>, b: Option<CheckedTypeId>) -> (r: bool)
    ensures
        r == (a == b),
{
    match (a, b) {
        (Some(x), Some(y)) => x.0 == y.0,
        (None, None) => true,
        _ => false,
    }
}

/// Whether two routine types have the same identity.
pub fn same_routine(a: &RoutineType, b: &RoutineType) -> (r: bool)
    ensures
        r == (a@ == b@),
{
    let vi = match (a.variadic_index, b.variadic_index) {
        (Some(x), Some(y)) => x == y,
        (None, None) => true,
        _ => false,
    };
    same_symbols(&a.generic_params, &b.generic_params) && same_constraint_maps(
        &a.generic_constraints,
        &b.generic_constraints,
    ) && same_names(&a.param_names, &b.param_names) && same_default_flags(
        &a.param_defaults,
        &b.param_defaults,
    ) && vi && same_positions(&a.mutex_params, &b.mutex_params) && same_ids(&a.params, &b.params)
        && same_opt_id(a.return_type, b.return_type) && same_opt_id(a.error_type, b.error_type)
        && a.env_lifetime == b.env_lifetime
}

/// Whether two checked types have the same identity.
pub fn same_type(a: &CheckedType, b: &CheckedType) -> (r: bool)
    ensures
        r == (a@ == b@),
{
    match (a, b) {
        (CheckedType::Builtin(x), CheckedType::Builtin(y)) => *x == *y,
        (
            CheckedType::Declared { symbol: s1, name: n1, kind: k1, args: a1 },
            CheckedType::Declared { symbol: s2, name: n2, kind: k2, args: a2 },
        ) => s1.0 == s2.0 && n1.eq(n2) && *k1 == *k2 && same_ids(a1, a2),
        (
            CheckedType::Array { element_type: e1, size: z1 },
            CheckedType::Array { element_type: e2, size: z2 },
        ) => e1.0 == e2.0 && match (z1, z2) {
            (Some(x), Some(y)) => *x == *y,
            (None, None) => true,
            _ => false,
        },
        (CheckedType::Vector { element_type: e1 }, CheckedType::Vector { element_type: e2 }) => e1.0
            == e2.0,
        (CheckedType::Sequence { element_type: e1 }, CheckedType::Sequence { element_type: e2 }) =>
            e1.0 == e2.0,
        (CheckedType::SetOf { member_types: m1 }, CheckedType::SetOf { member_types: m2 }) => same_ids(
            m1,
            m2,
        ),
        (
            CheckedType::MapOf { key_type: k1, value_type: v1 },
            CheckedType::MapOf { key_type: k2, value_type: v2 },
        ) => k1.0 == k2.0 && v1.0 == v2.0,
        (CheckedType::Channel { element_type: e1 }, CheckedType::Channel { element_type: e2 }) =>
            e1.0 == e2.0,
        (
            CheckedType::ChannelSender { element_type: e1 },
            CheckedType::ChannelSender { element_type: e2 },
        ) => e1.0 == e2.0,
        (
            CheckedType::ChannelReceiver { element_type: e1 },
            CheckedType::ChannelReceiver { element_type: e2 },
        ) => e1.0 == e2.0,
        (
            CheckedType::Eventual { value_type: v1, error_type: r1 },
            CheckedType::Eventual { value_type: v2, error_type: r2 },
        ) => v1.0 == v2.0 && same_opt_id(*r1, *r2),
        (CheckedType::Optional { inner: i1 }, CheckedType::Optional { inner: i2 }) => i1.0 == i2.0,
        (CheckedType::Owned { inner: i1 }, CheckedType::Owned { inner: i2 }) => i1.0 == i2.0,
        (
            CheckedType::Borrowed { inner: i1, mutable: m1 },
            CheckedType::Borrowed { inner: i2, mutable: m2 },
        ) => i1.0 == i2.0 && *m1 == *m2,
        (
            CheckedType::Pointer {
                target: t1,
                shared: s1,
                weak: w1,
                sync: y1,
                raw: r1,
                mutable: m1,
            },
            CheckedType::Pointer {
                target: t2,
                shared: s2,
                weak: w2,
                sync: y2,
                raw: r2,
                mutable: m2,
            },
        ) => t1.0 == t2.0 && *s1 == *s2 && *w1 == *w2 && *y1 == *y2 && *r1 == *r2 && *m1 == *m2,
        (CheckedType::Error { inner: i1 }, CheckedType::Error { inner: i2 }) => same_opt_id(
            *i1,
            *i2,
        ),
        (CheckedType::Record { fields: f1 }, CheckedType::Record { fields: f2 }) => same_fields(
            f1,
            f2,
        ),
        (CheckedType::Entry { variants: v1 }, CheckedType::Entry { variants: v2 }) => same_variants(
            v1,
            v2,
        ),
        (CheckedType::Routine(r1), CheckedType::Routine(r2)) => same_routine(r1, r2),
        _ => false,
    }
}

/// The first position holding `t`, when one does.
pub open spec fn position_of(s: Seq<CheckedTypeView>, t: CheckedTypeView) -> int {
    choose|i: int| 0 <= i < s.len() && s[i] == t
}

/// The table and id that interning `t` into `s` yields: the existing
/// position when `t` is stored, else a new last position.
pub open spec fn intern_spec(s: Seq<CheckedTypeView>, t: CheckedTypeView) -> (Seq<CheckedTypeView>, int) {
    if s.contains(t) {
        (s, position_of(s, t))
    } else {
        (s.push(t), s.len() as int)
    }
}

/// Interning keeps types distinct, stores the interned type under its id,
/// and gives two types the same id exactly when they are equal.
pub proof fn lemma_interning_is_canonical(
    s: Seq<CheckedTypeView>,
    t1: CheckedTypeView,
    t2: CheckedTypeView,
)
    requires
        distinct_types(s),
    ensures
        ({
            let (s1, i1) = intern_spec(s, t1);
            let (s2, i2) = intern_spec(s1, t2);
            &&& distinct_types(s1)
            &&& distinct_types(s2)
            &&& 0 <= i1 < s2.len() && s2[i1] == t1
            &&& 0 <= i2 < s2.len() && s2[i2] == t2
            &&& (i1 == i2 <==> t1 == t2)
        }),
{
    lemma_intern_spec(s, t1);
    let (s1, i1) = intern_spec(s, t1);
    lemma_intern_spec(s1, t2);
}

/// What one interning step does.
pub proof fn lemma_intern_spec(s: Seq<CheckedTypeView>, t: CheckedTypeView)
    requires
        distinct_types(s),
    ensures
        ({
            let (s1, i) = intern_spec(s, t);
            &&& distinct_types(s1)
            &&& 0 <= i < s1.len() && s1[i] == t
            &&& s1.len() >= s.len()
            &&& forall|j: int| 0 <= j < s.len() ==> s1[j] == s[j]
            &&& forall|j: int| 0 <= j < s1.len() && s1[j] == t ==> j == i
        }),
{
    if s.contains(t) {
        let p = position_of(s, t);
        assert forall|j: int| 0 <= j < s.len() && s[j] == t implies j == p by {
            if j < p {
                assert(s[j] == s[p]);
            } else if p < j {
                assert(s[p] == s[j]);
            }
        }
    } else {
        let s1 = s.push(t);
        assert forall|a: int, b: int| 0 <= a < b < s1.len() implies s1[a] != s1[b] by {
            if b == s.len() {
                assert(s1[a] == s[a]);
            }
        }
    }
}

/// No type occurs twice.
pub open spec fn distinct_types(s: Seq<CheckedTypeView>) -> bool {
    forall|i: int, j: int| 0 <= i < j < s.len() ==> s[i] != s[j]
}

impl Default for TypeTable {
    /// An empty table.
    fn default() -> (r: Self)
        ensures
            r@ == Seq::<CheckedTypeView>::empty(),
    {
        TypeTable::new()
    }
}

/// Interns types: every type is stored once and named by its position.
#[derive(Debug, PartialEq, Eq)]
pub struct TypeTable {
    types: Vec<CheckedType>,
}

impl View for TypeTable {
    type V = Seq<CheckedTypeView>;

    closed spec fn view(&self) -> Seq<CheckedTypeView> {
        self.types@.map_values(|t: CheckedType| t@)
    }
}

impl TypeTable {
    #[verifier::type_invariant]
    closed spec fn each_type_once(&self) -> bool {
        distinct_types(self@)
    }

    /// No type occurs twice in any table.
    pub fn types_are_distinct(&self) -> (r: bool)
        ensures
            r,
            distinct_types(self@),
    {
        proof {
            use_type_invariant(self);
        }
        true
    }

    /// An empty table.
    pub fn new() -> (r: Self)
        ensures
            r@ == Seq::<CheckedTypeView>::empty(),
    {
        let r = TypeTable { types: Vec::new() };
        assert(r@ =~= Seq::<CheckedTypeView>::empty());
        r
    }

    /// The number of interned types.
    pub fn len(&self) -> (r: usize)
        ensures
            r == self@.len(),
    {
        self.types.len()
    }

    /// Whether no type has been interned.
    pub fn is_empty(&self) -> (r: bool)
        ensures
            r == (self@.len() == 0),
    {
        self.types.len() == 0
    }

    /// The type stored under `id`.
    pub fn get(&self, id: CheckedTypeId) -> (r: Option<&CheckedType>)
        ensures
            match r {
                Some(t) => id.0 < self@.len() && t@ == self@[id.0 as int],
                None => id.0 >= self@.len(),
            },
    {
        if id.0 < self.types.len() {
            Some(&self.types[id.0])
        } else {
            None
        }
    }

    /// The id of `ty`, storing it first when it is new. Equal types always
    /// get the same id; distinct types get distinct ids.
    pub fn intern(&mut self, ty: CheckedType) -> (id: CheckedTypeId)
        ensures
            id.0 < final(self)@.len(),
            final(self)@[id.0 as int] == ty@,
            old(self)@.contains(ty@) ==> final(self)@ == old(self)@ && id.0 == position_of(
                old(self)@,
                ty@,
            ),
            !old(self)@.contains(ty@) ==> final(self)@ == old(self)@.push(ty@) && id.0 == old(
                self,
            )@.len(),
            (final(self)@, id.0 as int) == intern_spec(old(self)@, ty@),
    {
        proof {
            use_type_invariant(&*self);
        }
        let mut i: usize = 0;
        while i < self.types.len()
            invariant
                i <= self.types@.len(),
                self@ == old(self)@,
                distinct_types(self@),
                forall|j: int| 0 <= j < i ==> self@[j] != ty@,
            decreases self.types@.len() - i,
        {
            if same_type(&self.types[i], &ty) {
                proof {
                    assert(self@[i as int] == ty@);
                    assert(self@.contains(ty@));
                    let p = position_of(self@, ty@);
                    assert(p == i) by {
                        if p != i as int {
                            assert(self@[p] == self@[i as int]);
                        }
                    }
                }
                return CheckedTypeId(i);
            }
            i = i + 1;
        }
        let id = CheckedTypeId(self.types.len());
        let mut types: Vec<CheckedType> = Vec::new();
        std::mem::swap(&mut types, &mut self.types);
        types.push(ty);
        proof {
            let s = types@.map_values(|t: CheckedType| t@);
            assert(s =~= old(self)@.push(ty@));
            assert(!old(self)@.contains(ty@));
        }
        self.types = types;
        proof {
            assert(self@ =~= old(self)@.push(ty@));
        }
        id
    }

    /// The id of a builtin scalar type, interning it when new.
    pub fn intern_builtin(&mut self, builtin: BuiltinType) -> (id: CheckedTypeId)
        ensures
            id.0 < final(self)@.len(),
            final(self)@[id.0 as int] == CheckedTypeView::Builtin(builtin),
            old(self)@.contains(CheckedTypeView::Builtin(builtin)) ==> final(self)@ == old(self)@,
            !old(self)@.contains(CheckedTypeView::Builtin(builtin)) ==> final(self)@ == old(
                self,
            )@.push(CheckedTypeView::Builtin(builtin)),
    {
        self.intern(CheckedType::Builtin(builtin))
    }
}

} // verus!
