//! Type-checking diagnostics.
use crate::ids::{SyntaxOrigin, SyntaxOriginView};
use vstd::prelude::*;

verus! {

/// What kind of rule a diagnostic reports broken.
#[derive(Clone, Copy, Debug, PartialEq, Eq, Structural)]
pub enum TypecheckErrorKind {
    InvalidInput,
    IncompatibleType,
    Unsupported,
    Ownership,
    BorrowConflict,
    BorrowMutability,
    BorrowReturned,
    OwnerBorrowed,
    Uninitialized,
    ScopeResolutionFailed,
    Internal,
}

/// A type-checking diagnostic: its kind, its message and, when known, the
/// source position it is about.
#[derive(Debug, Clone, PartialEq, Eq)]
pub struct TypecheckError {
    kind: TypecheckErrorKind,
    message: String,
    origin: Option<SyntaxOrigin>,
    related: Vec<(SyntaxOrigin, String)>,
}

/// The value of a `TypecheckError`.
pub struct TypecheckErrorView {
    pub kind: TypecheckErrorKind,
    pub message: Seq<char>,
    pub origin: Option<SyntaxOriginView>,
    /// Other positions the diagnostic points at, each with a label.
    pub related: Seq<(SyntaxOriginView, Seq<char>)>,
}

/// The views of related positions.
pub open spec fn related_view(related: Seq<(SyntaxOrigin, String)>) -> Seq<(SyntaxOriginView, Seq<char>)> {
    related.map_values(|r: (SyntaxOrigin, String)| (r.0@, r.1@))
}

impl View for TypecheckError {
    type V = TypecheckErrorView;

    closed spec fn view(&self) -> TypecheckErrorView {
        TypecheckErrorView {
            kind: self.kind,
            message: self.message@,
            origin: match self.origin {
                Some(o) => Some(o@),
                None => None,
            },
            related: related_view(self.related@),
        }
    }
}

/// `e`, placed at `origin` when it has no position of its own.
pub open spec fn with_fallback(e: TypecheckErrorView, origin: Option<SyntaxOriginView>) -> TypecheckErrorView {
    match e.origin {
        Some(_) => e,
        None => TypecheckErrorView { origin, ..e },
    }
}

impl TypecheckError {
    /// A diagnostic without a source position.
    pub fn new(kind: TypecheckErrorKind, message: &str) -> (r: Self)
        ensures
            r@ == (TypecheckErrorView { kind, message: message@, origin: None, related: seq![] }),
    {
        let r = TypecheckError {
            kind,
            message: crate::text::owned(message),
            origin: None,
            related: Vec::new(),
        };
        proof {
            assert(related_view(r.related@) =~= seq![]);
        }
        r
    }

    /// A diagnostic about the source position `origin`.
    pub fn with_origin(kind: TypecheckErrorKind, message: &str, origin: SyntaxOrigin) -> (r: Self)
        ensures
            r@ == (TypecheckErrorView {
                kind,
                message: message@,
                origin: Some(origin@),
                related: seq![],
            }),
    {
        let r = TypecheckError {
            kind,
            message: crate::text::owned(message),
            origin: Some(origin),
            related: Vec::new(),
        };
        proof {
            assert(related_view(r.related@) =~= seq![]);
        }
        r
    }

    /// A diagnostic about `origin` when it is known.
    pub fn at(kind: TypecheckErrorKind, message: &str, origin: Option<SyntaxOrigin>) -> (r: Self)
        ensures
            r@ == (TypecheckErrorView {
                kind,
                message: message@,
                origin: match origin {
                    Some(o) => Some(o@),
                    None => None,
                },
                related: seq![],
            }),
    {
        let r = TypecheckError {
            kind,
            message: crate::text::owned(message),
            origin,
            related: Vec::new(),
        };
        proof {
            assert(related_view(r.related@) =~= seq![]);
        }
        r
    }

    /// The same diagnostic, placed at `origin` when it has no position of
    /// its own.
    pub fn with_fallback_origin(self, origin: SyntaxOrigin) -> (r: Self)
        ensures
            r@ == with_fallback(self@, Some(origin@)),
    {
        match self.origin {
            Some(_) => self,
            None => TypecheckError {
                kind: self.kind,
                message: self.message,
                origin: Some(origin),
                related: self.related,
            },
        }
    }

    /// The same diagnostic also pointing at `origin`, labelled `label`.
    pub fn with_related_origin(self, origin: SyntaxOrigin, label: &str) -> (r: Self)
        ensures
            r@ == (TypecheckErrorView {
                related: self@.related.push((origin@, label@)),
                ..self@
            }),
    {
        let mut r = self;
        let ghost before = r.related@;
        let ghost o = origin;
        let text = crate::text::owned(label);
        let ghost t = text;
        r.related.push((origin, text));
        proof {
            assert(related_view(r.related@) =~= related_view(before).push((o@, t@)));
        }
        r
    }

    /// The other positions the diagnostic points at, with their labels.
    pub fn related_origins(&self) -> (r: &Vec<(SyntaxOrigin, String)>)
        ensures
            related_view(r@) == self@.related,
    {
        &self.related
    }

    /// The kind of rule broken.
    pub fn kind(&self) -> (r: TypecheckErrorKind)
        ensures
            r == self@.kind,
    {
        self.kind
    }

    /// The message.
    pub fn message(&self) -> (r: &str)
        ensures
            r@ == self@.message,
    {
        self.message.as_str()
    }

    /// The source position the diagnostic is about, when known.
    pub fn diagnostic_location(&self) -> (r: Option<&SyntaxOrigin>)
        ensures
            match r {
                Some(o) => self@.origin == Some(o@),
                None => self@.origin is None,
            },
    {
        match &self.origin {
            Some(o) => Some(o),
            None => None,
        }
    }
}

/// A diagnostic for a state the checker should never reach, at `origin`
/// when known.
pub fn internal_error(message: &str, origin: Option<SyntaxOrigin>) -> (r: TypecheckError)
    ensures
        r@ == (TypecheckErrorView {
            kind: TypecheckErrorKind::Internal,
            message: message@,
            origin: match origin {
                Some(o) => Some(o@),
                None => None,
            },
            related: seq![],
        }),
{
    match origin {
        Some(origin) => TypecheckError::with_origin(TypecheckErrorKind::Internal, message, origin),
        None => TypecheckError::new(TypecheckErrorKind::Internal, message),
    }
}

} // verus!
