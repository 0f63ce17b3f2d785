//! Identifiers handed out by name resolution and parsing, and source
//! positions. The checker only compares and stores them.
use crate::sorted_map::{Duplicate, SortKey};
use vstd::prelude::*;

verus! {

/// A resolved symbol (binding, parameter, type, routine, ...).
#[derive(Clone, Copy, Debug, PartialEq, Eq, Structural, Hash, PartialOrd, Ord)]
pub struct SymbolId(pub usize);

/// A lexical scope.
#[derive(Clone, Copy, Debug, PartialEq, Eq, Structural, Hash, PartialOrd, Ord)]
pub struct ScopeId(pub usize);

/// A syntax node of the parsed program.
#[derive(Clone, Copy, Debug, PartialEq, Eq, Structural, Hash, PartialOrd, Ord)]
pub struct SyntaxNodeId(pub usize);

/// A compiler intrinsic a call was resolved to.
#[derive(Clone, Copy, Debug, PartialEq, Eq, Structural, Hash, PartialOrd, Ord)]
pub struct IntrinsicId(pub usize);

/// A name use recorded by name resolution.
#[derive(Clone, Copy, Debug, PartialEq, Eq, Structural, Hash, PartialOrd, Ord)]
pub struct ReferenceId(pub usize);

/// A source file of the package.
#[derive(Clone, Copy, Debug, PartialEq, Eq, Structural, Hash, PartialOrd, Ord)]
pub struct SourceUnitId(pub usize);

impl View for SymbolId {
    type V = SymbolId;

    open spec fn view(&self) -> SymbolId {
        *self
    }
}

impl SortKey for SymbolId {
    open spec fn key_lt(a: SymbolId, b: SymbolId) -> bool {
        a.0 < b.0
    }

    proof fn lemma_key_order(a: SymbolId, b: SymbolId, c: SymbolId) {
    }

    fn less(&self, other: &SymbolId) -> (r: bool) {
        self.0 < other.0
    }

    fn same(&self, other: &SymbolId) -> (r: bool) {
        self.0 == other.0
    }

    fn copy_key(&self) -> (r: SymbolId) {
        *self
    }
}

/// A position in a source file, used to anchor diagnostics and ownership
/// events.
#[derive(Debug, Clone, PartialEq, Eq)]
pub struct SyntaxOrigin {
    pub file: Option<String>,
    pub line: usize,
    pub column: usize,
    pub length: usize,
}

/// The mathematical value of a `SyntaxOrigin`.
pub struct SyntaxOriginView {
    pub file: Option<Seq<char>>,
    pub line: usize,
    pub column: usize,
    pub length: usize,
}

impl View for SyntaxOrigin {
    type V = SyntaxOriginView;

    open spec fn view(&self) -> SyntaxOriginView {
        SyntaxOriginView {
            file: match self.file {
                Some(f) => Some(f@),
                None => None,
            },
            line: self.line,
            column: self.column,
            length: self.length,
        }
    }
}

/// An exact copy of an optional position.
pub fn copy_origin(origin: &Option<SyntaxOrigin>) -> (r: Option<SyntaxOrigin>)
    ensures
        r == *origin,
{
    match origin {
        Some(o) => Some(o.copy()),
        None => None,
    }
}

impl SyntaxOrigin {
    /// An exact copy of this origin.
    pub fn copy(&self) -> (r: SyntaxOrigin)
        ensures
            r == *self,
    {
        SyntaxOrigin {
            file: match &self.file {
                Some(f) => Some(f.clone()),
                None => None,
            },
            line: self.line,
            column: self.column,
            length: self.length,
        }
    }

    /// Whether two origins name the same file position.
    pub fn same_as(&self, other: &SyntaxOrigin) -> (r: bool)
        ensures
            r == (self@ == other@),
    {
        let same_file = match (&self.file, &other.file) {
            (Some(a), Some(b)) => a.eq(b),
            (None, None) => true,
            _ => false,
        };
        same_file && self.line == other.line && self.column == other.column && self.length
            == other.length
    }
}

impl DeepView for SymbolId {
    type V = SymbolId;

    open spec fn deep_view(&self) -> SymbolId {
        *self
    }
}

impl Duplicate for SymbolId {
    fn duplicate(&self) -> (r: SymbolId) {
        *self
    }
}

impl View for ScopeId {
    type V = ScopeId;

    open spec fn view(&self) -> ScopeId {
        *self
    }
}

impl DeepView for ScopeId {
    type V = ScopeId;

    open spec fn deep_view(&self) -> ScopeId {
        *self
    }
}

impl View for SyntaxNodeId {
    type V = SyntaxNodeId;

    open spec fn view(&self) -> SyntaxNodeId {
        *self
    }
}

impl DeepView for SyntaxNodeId {
    type V = SyntaxNodeId;

    open spec fn deep_view(&self) -> SyntaxNodeId {
        *self
    }
}

impl Duplicate for SyntaxNodeId {
    fn duplicate(&self) -> (r: SyntaxNodeId) {
        *self
    }
}

impl SortKey for SyntaxNodeId {
    open spec fn key_lt(a: SyntaxNodeId, b: SyntaxNodeId) -> bool {
        a.0 < b.0
    }

    proof fn lemma_key_order(a: SyntaxNodeId, b: SyntaxNodeId, c: SyntaxNodeId) {
    }

    fn less(&self, other: &SyntaxNodeId) -> (r: bool) {
        self.0 < other.0
    }

    fn same(&self, other: &SyntaxNodeId) -> (r: bool) {
        self.0 == other.0
    }

    fn copy_key(&self) -> (r: SyntaxNodeId) {
        *self
    }
}

impl View for ReferenceId {
    type V = ReferenceId;

    open spec fn view(&self) -> ReferenceId {
        *self
    }
}

impl SortKey for ReferenceId {
    open spec fn key_lt(a: ReferenceId, b: ReferenceId) -> bool {
        a.0 < b.0
    }

    proof fn lemma_key_order(a: ReferenceId, b: ReferenceId, c: ReferenceId) {
    }

    fn less(&self, other: &ReferenceId) -> (r: bool) {
        self.0 < other.0
    }

    fn same(&self, other: &ReferenceId) -> (r: bool) {
        self.0 == other.0
    }

    fn copy_key(&self) -> (r: ReferenceId) {
        *self
    }
}

impl SortKey for ScopeId {
    open spec fn key_lt(a: ScopeId, b: ScopeId) -> bool {
        a.0 < b.0
    }

    proof fn lemma_key_order(a: ScopeId, b: ScopeId, c: ScopeId) {
    }

    fn less(&self, other: &ScopeId) -> (r: bool) {
        self.0 < other.0
    }

    fn same(&self, other: &ScopeId) -> (r: bool) {
        self.0 == other.0
    }

    fn copy_key(&self) -> (r: ScopeId) {
        *self
    }
}

impl DeepView for SyntaxOrigin {
    type V = SyntaxOriginView;

    open spec fn deep_view(&self) -> SyntaxOriginView {
        self@
    }
}

impl Duplicate for SyntaxOrigin {
    fn duplicate(&self) -> (r: SyntaxOrigin) {
        self.copy()
    }
}

} // verus!
