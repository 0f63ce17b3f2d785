//! The syntax of an expression as the checker reads it, and the walk that
//! types it: comments, literals, names used as values, unary operators,
//! ownership operations and binary operators, each typed against the
//! program's type table and recorded facts and ownership state.
use crate::apparent::{apparent_resolves, apparent_step, apparent_within, result_view, ApparentStep, type_at};
use crate::config::TypecheckCapabilityModel;
use crate::errors::{TypecheckError, TypecheckErrorKind, TypecheckErrorView};
use crate::exprs::{ErrorCallMode, TypeContext, TypedExpr};
use crate::ids::{SymbolId, SyntaxNodeId, SyntaxOrigin};
use crate::model::{TypedProgram, TypedSymbol};
use crate::operators::{type_value_binary_op, value_binary_outcome, BinaryOperator};
use crate::ownership::{FactsView, OwnershipView};
use crate::references::{identifier_reference_outcome, origin_at, type_identifier_reference};
use crate::rejections::{error_at, origin_view, plain_use_error, plain_value_expr, reject_embedded_full_channel};
use crate::render::{acyclic, lemma_intern_keeps_acyclic, references_stored, renders_into};
use crate::resolution::{origin_for, Resolution};
use crate::shapes::{reaches, TypeQuery};
use crate::types::{intern_spec, BuiltinType, CheckedType, CheckedTypeId, CheckedTypeView};
use crate::transfers::{
    after_transfer, identifier_transfer, loop_walks_end, track_identifier_transfer, transfer_done,
    TransferRecord,
};
use crate::widths::{CharEncoding, FloatWidth, IntWidth};
use vstd::prelude::*;

verus! {

/// A literal, by the kind of value it writes.
#[derive(Clone, Copy, Debug, PartialEq, Eq, Structural)]
pub enum Literal {
    Integer,
    Float,
    Boolean,
    Character,
    String,
    Nil,
}

/// The unary operators.
#[derive(Clone, Copy, Debug, PartialEq, Eq, Structural)]
pub enum UnaryOperator {
    /// Arithmetic negation.
    Neg,
    /// Boolean negation.
    Not,
    /// Building a pointer to the value.
    Ref,
    /// Reading through a pointer.
    Deref,
    /// The payload of an optional or error shell, postfix `!`.
    Unwrap,
    /// A shared loan of the owner, `#owner`.
    BorrowFrom,
    /// Ending a loan early, by its borrow binding.
    GiveBack,
}

/// How a unary operator is named in a diagnostic.
pub open spec fn unary_name(op: UnaryOperator) -> Seq<char> {
    match op {
        UnaryOperator::Neg => "Neg"@,
        UnaryOperator::Not => "Not"@,
        UnaryOperator::Ref => "Ref"@,
        UnaryOperator::Deref => "Deref"@,
        UnaryOperator::Unwrap => "Unwrap"@,
        UnaryOperator::BorrowFrom => "BorrowFrom"@,
        UnaryOperator::GiveBack => "GiveBack"@,
    }
}

/// How a unary operator is named in a diagnostic.
fn unary_text(op: UnaryOperator) -> (r: &'static str)
    ensures
        r@ == unary_name(op),
{
    match op {
        UnaryOperator::Neg => "Neg",
        UnaryOperator::Not => "Not",
        UnaryOperator::Ref => "Ref",
        UnaryOperator::Deref => "Deref",
        UnaryOperator::Unwrap => "Unwrap",
        UnaryOperator::BorrowFrom => "BorrowFrom",
        UnaryOperator::GiveBack => "GiveBack",
    }
}

/// The options of an ownership operation `[opt, ...]operand`.
#[derive(Clone, Copy, Debug, PartialEq, Eq, Structural)]
pub enum OwnershipOption {
    /// `bor`: a loan.
    Borrow,
    /// `mut`: a mutable loan, with `bor`.
    Mutable,
    /// `new`: a fresh heap allocation.
    New,
    /// `mov`: a transfer.
    Move,
    /// `cpy`: a copy.
    Copy,
    /// `cln`: a clone.
    Clone,
    /// `weak`: a weak handle from a shared pointer.
    Weak,
    /// `upg`: a shared pointer from a weak handle, if still alive.
    Upgrade,
    /// `fin`: finalization.
    Finalize,
}

/// An expression as the checker reads it.
#[derive(Debug)]
pub enum Expr<'a> {
    /// A comment standing where a value could; it has none.
    Comment,
    /// An expression with comments attached.
    Commented(Box<Expr<'a>>),
    /// A literal value.
    Literal(Literal),
    /// A name used as a value, at its syntax node.
    Identifier { name: &'a str, syntax_id: Option<SyntaxNodeId> },
    /// A qualified name used as a value, written `path`, at the syntax node
    /// of its path.
    QualifiedIdentifier { path: &'a str, syntax_id: Option<SyntaxNodeId> },
    /// A unary operator applied to a value.
    UnaryOp { op: UnaryOperator, operand: Box<Expr<'a>> },
    /// An ownership operation `[options]operand`.
    OwnershipOp { options: Vec<OwnershipOption>, operand: Box<Expr<'a>> },
    /// A binary operator applied to two values.
    BinaryOp { op: BinaryOperator, left: Box<Expr<'a>>, right: Box<Expr<'a>> },
}

/// The smaller of two optional syntax nodes.
pub open spec fn smaller_syntax_id(a: Option<SyntaxNodeId>, b: Option<SyntaxNodeId>) -> Option<
    SyntaxNodeId,
> {
    match (a, b) {
        (Some(x), Some(y)) => if x.0 <= y.0 {
            Some(x)
        } else {
            Some(y)
        },
        (Some(x), None) => Some(x),
        (None, y) => y,
    }
}

/// The first syntax node, by id, written anywhere in `node`.
pub open spec fn first_syntax_id(node: Expr) -> Option<SyntaxNodeId>
    decreases node,
{
    match node {
        Expr::Commented(inner) => first_syntax_id(*inner),
        Expr::Identifier { syntax_id, .. } => syntax_id,
        Expr::QualifiedIdentifier { syntax_id, .. } => syntax_id,
        Expr::UnaryOp { operand, .. } => first_syntax_id(*operand),
        Expr::OwnershipOp { operand, .. } => first_syntax_id(*operand),
        Expr::BinaryOp { left, right, .. } => smaller_syntax_id(
            first_syntax_id(*left),
            first_syntax_id(*right),
        ),
        _ => None,
    }
}

/// Where `node` stands in the source: the position of its first syntax
/// node, where resolution recorded one.
pub open spec fn node_origin_at(resolution: &Resolution, node: Expr) -> Option<SyntaxOrigin> {
    match first_syntax_id(node) {
        Some(id) => origin_at(resolution, id),
        None => None,
    }
}

/// The first syntax node, by id, written anywhere in `node`.
fn first_syntax_id_of(node: &Expr) -> (r: Option<SyntaxNodeId>)
    ensures
        r == first_syntax_id(*node),
    decreases node,
{
    match node {
        Expr::Commented(inner) => first_syntax_id_of(inner),
        Expr::Identifier { syntax_id, .. } => *syntax_id,
        Expr::QualifiedIdentifier { syntax_id, .. } => *syntax_id,
        Expr::UnaryOp { operand, .. } => first_syntax_id_of(operand),
        Expr::OwnershipOp { operand, .. } => first_syntax_id_of(operand),
        Expr::BinaryOp { left, right, .. } => {
            let a = first_syntax_id_of(left);
            let b = first_syntax_id_of(right);
            match (a, b) {
                (Some(x), Some(y)) => if x.0 <= y.0 {
                    Some(x)
                } else {
                    Some(y)
                },
                (Some(x), None) => Some(x),
                (None, y) => y,
            }
        },
        _ => None,
    }
}

/// Where `node` stands in the source.
pub fn node_origin(resolution: &Resolution, node: &Expr) -> (r: Option<SyntaxOrigin>)
    ensures
        r == node_origin_at(resolution, *node),
{
    match first_syntax_id_of(node) {
        Some(id) => origin_for(resolution, id),
        None => None,
    }
}

/// The types of `after` start with those of `before`, none of the types
/// added is a named type, and both record the same apparent types.
pub open spec fn extends(before: FactsView, after: FactsView) -> bool {
    &&& before.types.len() <= after.types.len()
    &&& forall|i: int| 0 <= i < before.types.len() ==> after.types[i] == before.types[i]
    &&& forall|i: int| before.types.len() <= i < after.types.len() ==> !(#[trigger] after.types[i] is Declared)
    &&& after.apparent_type_overrides == before.apparent_type_overrides
}

/// The facts are ready for typing expressions: the type table has no
/// cycles and refers only to stored types, recorded apparent types and
/// declared types are stored types, and every stored type resolves to its
/// apparent type.
pub open spec fn walk_ready(facts: FactsView, symbols: Map<SymbolId, TypedSymbol>) -> bool {
    let n = facts.types.len();
    &&& acyclic(facts.types)
    &&& references_stored(facts.types)
    &&& forall|k: CheckedTypeId| #[trigger]
        facts.apparent_type_overrides.contains_key(k) ==> k.0 < n
            && facts.apparent_type_overrides[k].0 < n
    &&& forall|s: SymbolId| #[trigger]
        symbols.contains_key(s) && symbols[s].declared_type is Some ==> (symbols[s].declared_type->0).0
            < n
    &&& forall|id: CheckedTypeId| id.0 < n ==> #[trigger] apparent_resolves(facts, symbols, id)
}

/// Resolving a stored type reads only stored types, so it comes out the
/// same once more types are stored.
proof fn lemma_resolution_extends(
    f1: FactsView,
    f2: FactsView,
    symbols: Map<SymbolId, TypedSymbol>,
    id: CheckedTypeId,
    seen: Set<SymbolId>,
    fuel: nat,
)
    requires
        walk_ready(f1, symbols),
        extends(f1, f2),
        id.0 < f1.types.len(),
    ensures
        apparent_within(f1, symbols, id, seen, fuel) == apparent_within(f2, symbols, id, seen, fuel),
    decreases fuel,
{
    if fuel > 0 {
        assert(type_at(f1, id) == type_at(f2, id));
        match apparent_step(f1, symbols, id, seen) {
            ApparentStep::Next(next, seen2) => {
                if !f1.apparent_type_overrides.contains_key(id) {
                    match f1.types[id.0 as int] {
                        CheckedTypeView::Owned { inner } => {
                            assert(renders_into(f1.types[id.0 as int], inner));
                        },
                        CheckedTypeView::Borrowed { inner, .. } => {
                            assert(renders_into(f1.types[id.0 as int], inner));
                        },
                        _ => {},
                    }
                }
                lemma_resolution_extends(f1, f2, symbols, next, seen2, (fuel - 1) as nat);
            },
            _ => {},
        }
    }
}

/// Readiness survives storing more builtin types and recording more about
/// nodes and name uses.
pub(crate) proof fn lemma_ready_extends(f1: FactsView, f2: FactsView, symbols: Map<SymbolId, TypedSymbol>)
    requires
        walk_ready(f1, symbols),
        extends(f1, f2),
        acyclic(f2.types),
        references_stored(f2.types),
        forall|i: int|
            f1.types.len() <= i < f2.types.len() ==> #[trigger] f2.types[i] is Builtin,
    ensures
        walk_ready(f2, symbols),
{
    assert forall|id: CheckedTypeId| id.0 < f2.types.len() implies #[trigger] apparent_resolves(
        f2,
        symbols,
        id,
    ) by {
        if id.0 < f1.types.len() {
            assert(apparent_resolves(f1, symbols, id));
            let n = choose|n: nat| (#[trigger] apparent_within(f1, symbols, id, Set::empty(), n)) is Some;
            lemma_resolution_extends(f1, f2, symbols, id, Set::empty(), n);
        } else {
            assert(f2.types[id.0 as int] is Builtin);
            assert(!f2.apparent_type_overrides.contains_key(id));
            assert(apparent_step(f2, symbols, id, Set::empty()) == ApparentStep::Stop(id));
            assert(apparent_within(f2, symbols, id, Set::empty(), 1) is Some) by {
                reveal_with_fuel(apparent_within, 2);
            }
        }
    }
}

/// The type of a typed value, if it has one, is stored.
pub open spec fn value_stored(r: Result<TypedExpr, TypecheckErrorView>, facts: FactsView) -> bool {
    match r {
        Ok(e) => match e.value_type {
            Some(t) => t.0 < facts.types.len(),
            None => true,
        },
        Err(_) => true,
    }
}

/// Storing a type that is not a named type and whose parts are stored
/// keeps the facts ready.
pub(crate) proof fn lemma_intern_keeps_ready(f: FactsView, symbols: Map<SymbolId, TypedSymbol>, t: CheckedTypeView)
    requires
        walk_ready(f, symbols),
        !(t is Declared),
        forall|c: CheckedTypeId| #[trigger] renders_into(t, c) ==> c.0 < f.types.len(),
    ensures
        ({
            let (types, id) = intern_spec(f.types, t);
            let f2 = FactsView { types, ..f };
            walk_ready(f2, symbols) && extends(f, f2) && 0 <= id < types.len()
        }),
{
    lemma_intern_keeps_acyclic(f.types, t);
    let (types, id) = intern_spec(f.types, t);
    let f2 = FactsView { types, ..f };
    if f.types.contains(t) {
        let k = choose|k: int| 0 <= k < f.types.len() && f.types[k] == t;
        assert(0 <= id < types.len()) by {
            assert(f.types.contains(t));
        }
    }
    assert(extends(f, f2));
    assert forall|x: CheckedTypeId| x.0 < f2.types.len() implies #[trigger] apparent_resolves(
        f2,
        symbols,
        x,
    ) by {
        if x.0 < f.types.len() {
            assert(apparent_resolves(f, symbols, x));
            let n = choose|n: nat| (#[trigger] apparent_within(f, symbols, x, Set::empty(), n)) is Some;
            lemma_resolution_extends(f, f2, symbols, x, Set::empty(), n);
        } else {
            assert(f2.types[x.0 as int] == t);
            assert(!f2.apparent_type_overrides.contains_key(x));
            match t {
                CheckedTypeView::Owned { inner } => {
                    assert(renders_into(t, inner));
                    assert(apparent_resolves(f, symbols, inner));
                    let n = choose|n: nat|
                        (#[trigger] apparent_within(f, symbols, inner, Set::empty(), n)) is Some;
                    lemma_resolution_extends(f, f2, symbols, inner, Set::empty(), n);
                    assert(apparent_within(f2, symbols, x, Set::empty(), n + 1) == apparent_within(
                        f2,
                        symbols,
                        inner,
                        Set::empty(),
                        n,
                    ));
                },
                CheckedTypeView::Borrowed { inner, .. } => {
                    assert(renders_into(t, inner));
                    assert(apparent_resolves(f, symbols, inner));
                    let n = choose|n: nat|
                        (#[trigger] apparent_within(f, symbols, inner, Set::empty(), n)) is Some;
                    lemma_resolution_extends(f, f2, symbols, inner, Set::empty(), n);
                    assert(apparent_within(f2, symbols, x, Set::empty(), n + 1) == apparent_within(
                        f2,
                        symbols,
                        inner,
                        Set::empty(),
                        n,
                    ));
                },
                _ => {
                    assert(apparent_step(f2, symbols, x, Set::empty()) == ApparentStep::Stop(x));
                    assert(apparent_within(f2, symbols, x, Set::empty(), 1) is Some) by {
                        reveal_with_fuel(apparent_within, 2);
                    }
                },
            }
        }
    }
}

/// A part of a stored type is stored.
pub(crate) proof fn lemma_part_stored(f: FactsView, a: CheckedTypeId, c: CheckedTypeId)
    requires
        references_stored(f.types),
        a.0 < f.types.len(),
        renders_into(f.types[a.0 as int], c),
    ensures
        c.0 < f.types.len(),
{
}

/// A name typed as a value has the declared type of a known symbol.
proof fn lemma_reference_value_declared(
    facts: FactsView,
    symbols: Map<SymbolId, TypedSymbol>,
    resolution: &Resolution,
    reference_id: crate::ids::ReferenceId,
    origin: Option<SyntaxOrigin>,
)
    requires
        walk_ready(facts, symbols),
    ensures
        value_stored(
            crate::scope_rules::reference_typing(facts, symbols, resolution, reference_id, origin).0,
            facts,
        ),
{
    let refs = resolution.references.as_map();
    if refs.contains_key(reference_id) && refs[reference_id].resolved is Some {
        let sym = refs[reference_id].resolved->0;
        if symbols.contains_key(sym) && symbols[sym].declared_type is Some {
            assert(symbols.contains_key(sym));
        }
    }
}


/// The value of an expression of type `t`, with no recoverable error.
pub open spec fn value_of(t: CheckedTypeId) -> TypedExpr {
    TypedExpr { value_type: Some(t), recoverable_effect: None }
}

/// Interning `t`: its id as a value, and the facts with it stored.
pub open spec fn interned_value(facts: FactsView, t: CheckedTypeView) -> (
    Result<TypedExpr, TypecheckErrorView>,
    FactsView,
) {
    let (types, id) = intern_spec(facts.types, t);
    (Ok(value_of(CheckedTypeId(id as usize))), FactsView { types, ..facts })
}

/// The diagnostic for a string literal where the heap is unavailable.
pub open spec fn heap_literal_error() -> TypecheckErrorView {
    error_at(
        TypecheckErrorKind::Unsupported,
        "string literals require heap support and are unavailable in 'fol_model = core'"@,
        None,
    )
}

/// The diagnostic for `nil` where no optional or error shell is expected.
pub open spec fn nil_literal_error() -> TypecheckErrorView {
    error_at(
        TypecheckErrorKind::InvalidInput,
        "nil literals require an expected opt[...] or err[...] shell type in V1"@,
        None,
    )
}

/// Typing `literal` where a value of type `expected` may be wanted:
/// integers, floats, booleans and characters get their builtin types;
/// strings get `str`, as does a character literal where `str` is expected;
/// strings are refused where the heap is unavailable; `nil` takes the
/// expected type when that is an optional or error shell.
pub open spec fn literal_outcome(
    facts: FactsView,
    symbols: Map<SymbolId, TypedSymbol>,
    literal: Literal,
    expected: Option<CheckedTypeId>,
) -> (Result<TypedExpr, TypecheckErrorView>, FactsView) {
    let core = facts.capability_model == TypecheckCapabilityModel::Core;
    let str_type = CheckedTypeView::Builtin(BuiltinType::Str);
    match literal {
        Literal::Integer => interned_value(
            facts,
            CheckedTypeView::Builtin(BuiltinType::Int(IntWidth::DEFAULT)),
        ),
        Literal::Float => interned_value(
            facts,
            CheckedTypeView::Builtin(BuiltinType::Float(FloatWidth::DEFAULT)),
        ),
        Literal::Boolean => interned_value(facts, CheckedTypeView::Builtin(BuiltinType::Bool)),
        Literal::String => if core {
            (Err(heap_literal_error()), facts)
        } else {
            interned_value(facts, str_type)
        },
        Literal::Character => {
            let (types, str_id) = intern_spec(facts.types, str_type);
            let with_str = FactsView { types, ..facts };
            if expected == Some(CheckedTypeId(str_id as usize)) {
                if core {
                    (Err(heap_literal_error()), with_str)
                } else {
                    (Ok(value_of(CheckedTypeId(str_id as usize))), with_str)
                }
            } else {
                interned_value(
                    with_str,
                    CheckedTypeView::Builtin(BuiltinType::Char(CharEncoding::DEFAULT)),
                )
            }
        },
        Literal::Nil => match expected {
            None => (Err(nil_literal_error()), facts),
            Some(e) => match crate::apparent::apparent_outcome(facts, symbols, e) {
                Err(_) => (Err(crate::apparent::cycle_error()), facts),
                Ok(a) => if crate::apparent::is_nil_shell(facts, a) {
                    (Ok(value_of(e)), facts)
                } else {
                    (Err(nil_literal_error()), facts)
                },
            },
        },
    }
}

/// What typing comes to: the typed expression or the first diagnostic, and
/// the facts and the ownership state afterwards.
pub type Outcome = (Result<TypedExpr, TypecheckErrorView>, FactsView, OwnershipView);

/// The diagnostic for a value that embeds a full channel or eventual.
pub open spec fn embedded_channel_error(origin: Option<SyntaxOrigin>) -> TypecheckErrorView {
    error_at(
        TypecheckErrorKind::Unsupported,
        "full chn[T] and evt[T] values cannot be embedded in aggregate or wrapper types in V3; keep them as direct routine-local bindings or named-routine parameters"@,
        origin_view(origin),
    )
}

/// What typing `node`, where a value of type `expected` may be wanted,
/// comes to from `facts`: the typed expression or the first diagnostic,
/// and the facts afterwards. A comment has no value; a commented
/// expression is typed as the expression; literals, names and binary
/// operators are typed by their rules. A value whose type embeds a full
/// channel or eventual is then refused.
pub open spec fn node_outcome(
    facts: FactsView,
    symbols: Map<SymbolId, TypedSymbol>,
    o: OwnershipView,
    resolution: &Resolution,
    context: TypeContext,
    node: Expr,
    expected: Option<CheckedTypeId>,
) -> Outcome
    decreases node, 1nat,
{
    let (typed, after, o2) = match node {
        Expr::Comment => (Ok(TypedExpr { value_type: None, recoverable_effect: None }), facts, o),
        Expr::Commented(inner) => node_outcome(
            facts,
            symbols,
            o,
            resolution,
            context,
            *inner,
            expected,
        ),
        Expr::Literal(literal) => {
            let (r, f) = literal_outcome(facts, symbols, literal, expected);
            (r, f, o)
        },
        Expr::Identifier { name, syntax_id } => {
            let (r, f) = identifier_reference_outcome(
                facts,
                symbols,
                o,
                resolution,
                context,
                name,
                syntax_id,
            );
            (r, f, o)
        },
        Expr::QualifiedIdentifier { path, syntax_id } => {
            let (r, f) = crate::references::qualified_reference_outcome(
                facts,
                symbols,
                resolution,
                context,
                path,
                syntax_id,
            );
            (r, f, o)
        },
        Expr::UnaryOp { op, operand } => unary_outcome(
            facts,
            symbols,
            o,
            resolution,
            context,
            op,
            *operand,
            expected,
        ),
        Expr::OwnershipOp { options, operand } => ownership_op_outcome(
            facts,
            symbols,
            o,
            resolution,
            context,
            options,
            *operand,
        ),
        Expr::BinaryOp { op, left, right } => binary_outcome(
            facts,
            symbols,
            o,
            resolution,
            context,
            op,
            *left,
            *right,
        ),
    };
    match typed {
        Ok(e) => match e.value_type {
            Some(t) => if reaches(TypeQuery::FullChannel, after, symbols, t, true, Set::empty()) {
                (Err(embedded_channel_error(node_origin_at(resolution, node))), after, o2)
            } else {
                (Ok(e), after, o2)
            },
            None => (Ok(e), after, o2),
        },
        Err(e) => (Err(e), after, o2),
    }
}

/// The diagnostic for a unary operator that does not apply to a value of
/// type `operand`.
pub open spec fn invalid_unary_error(facts: FactsView, op: UnaryOperator, operand: CheckedTypeId) -> TypecheckErrorView {
    error_at(
        TypecheckErrorKind::InvalidInput,
        "unary operator '"@ + unary_name(op) + "' is not valid for '"@ + crate::render::rendered(
            facts.types,
            operand,
        ) + "'"@,
        None,
    )
}

/// `node` without the comments attached to it.
pub open spec fn stripped(node: Expr) -> Expr
    decreases node,
{
    match node {
        Expr::Commented(inner) => stripped(*inner),
        _ => node,
    }
}

/// What handing on the value of `node`, of type `actual`, records: a name
/// used directly is transferred; any other expression records nothing.
pub open spec fn expr_transfer(
    facts: FactsView,
    symbols: Map<SymbolId, TypedSymbol>,
    resolution: &Resolution,
    loop_scope: Option<crate::ids::ScopeId>,
    node: Expr,
    actual: CheckedTypeId,
) -> Result<TransferRecord, TypecheckErrorView> {
    match stripped(node) {
        Expr::Identifier { name, syntax_id: Some(id) } => identifier_transfer(
            facts,
            symbols,
            resolution,
            loop_scope,
            origin_view(node_origin_at(resolution, node)),
            id,
            name@,
            actual,
        ),
        _ => Ok(TransferRecord::Nothing),
    }
}

/// `context` with recoverable errors observed rather than propagated.
pub open spec fn observed(context: TypeContext) -> TypeContext {
    TypeContext { error_call_mode: ErrorCallMode::Observe, ..context }
}

/// The diagnostic for an operand with no type.
pub open spec fn untyped_operand_error() -> TypecheckErrorView {
    error_at(TypecheckErrorKind::InvalidInput, "unary operator operand does not have a type"@, None)
}

/// The sharing and thread-safety a pointer built where `expected` is wanted
/// takes: those of the expected pointer type, else neither.
pub open spec fn expected_pointer_flags(facts: FactsView, expected: Option<CheckedTypeId>) -> (bool, bool) {
    match expected {
        Some(e) => match type_at(facts, e) {
            Some(CheckedTypeView::Pointer { shared, sync, .. }) => (shared, sync),
            _ => (false, false),
        },
        None => (false, false),
    }
}

/// Negation and `not` on an operand whose apparent type is `a`: the
/// builtin type they give, if they apply.
pub open spec fn arithmetic_shape(facts: FactsView, op: UnaryOperator, a: CheckedTypeId) -> Option<BuiltinType> {
    match op {
        UnaryOperator::Neg => if crate::operators::is_int(facts, a) {
            Some(BuiltinType::Int(IntWidth::DEFAULT))
        } else if crate::operators::is_float(facts, a) {
            Some(BuiltinType::Float(FloatWidth::DEFAULT))
        } else {
            None
        },
        UnaryOperator::Not => if crate::operators::is_bool(facts, a) {
            Some(BuiltinType::Bool)
        } else {
            None
        },
        _ => None,
    }
}

/// What unwrapping the expression `operand`, within the unwrap written at
/// `at`, comes to: the operand is typed observing recoverable errors, must
/// be no routine result with a recoverable error, must have a type whose
/// apparent type is an optional or error shell with a payload; the operand
/// is handed on and the payload type is the value.
pub open spec fn unwrap_outcome(
    facts: FactsView,
    symbols: Map<SymbolId, TypedSymbol>,
    resolution: &Resolution,
    context: TypeContext,
    operand: Expr,
    at: Option<SyntaxOrigin>,
    typed: Outcome,
) -> Outcome {
    let (er, f1, o1) = typed;
    match er {
        Err(e) => (Err(e), f1, o1),
        Ok(e) => if e.recoverable_effect is Some {
            (
                Err(
                    error_at(
                        TypecheckErrorKind::Unsupported,
                        "postfix '!' unwrap applies to opt[...] and err[...] shell values, not to routine call results with '/ ErrorType' in V1"@,
                        origin_view(at),
                    ),
                ),
                f1,
                o1,
            )
        } else if e.value_type is None {
            (Err(untyped_operand_error()), f1, o1)
        } else {
            let t = e.value_type->0;
            match crate::apparent::apparent_outcome(f1, symbols, t) {
                Err(_) => (Err(crate::apparent::cycle_error()), f1, o1),
                Ok(a) => match crate::apparent::unwrapped(f1, a) {
                    None => (
                        Err(
                            error_at(
                                TypecheckErrorKind::InvalidInput,
                                "unwrap requires an opt[...] or err[...] shell with a value type in V1"@,
                                origin_view(at),
                            ),
                        ),
                        f1,
                        o1,
                    ),
                    Some(inner) => match expr_transfer(
                        f1,
                        symbols,
                        resolution,
                        context.repeating_loop_scope,
                        operand,
                        t,
                    ) {
                        Err(x) => (Err(x), f1, o1),
                        Ok(record) => (Ok(value_of(inner)), f1, after_transfer(o1, record)),
                    },
                },
            }
        },
    }
}

/// What applying `op` to an operand typed `e`, of apparent type `a`,
/// comes to from `f1` and `o1`, within the operator written at `at`:
/// negation and `not` give builtin types and keep the operand's recoverable
/// error; a pointer is built to the value, which is handed on, with the
/// sharing of an expected pointer type; reading through a unique or shared
/// pointer gives its target, and a move-only target moves out of a unique
/// pointer only.
pub open spec fn applied_unary_outcome(
    f1: FactsView,
    symbols: Map<SymbolId, TypedSymbol>,
    o1: OwnershipView,
    resolution: &Resolution,
    context: TypeContext,
    op: UnaryOperator,
    operand: Expr,
    expected: Option<CheckedTypeId>,
    e: TypedExpr,
    a: CheckedTypeId,
    at: Option<SyntaxOrigin>,
) -> Outcome {
    let t = e.value_type->0;
    match op {
        UnaryOperator::Ref => if f1.capability_model == TypecheckCapabilityModel::Core {
            (
                Err(
                    error_at(
                        TypecheckErrorKind::Unsupported,
                        "pointer construction requires heap support; choose fol_model = 'memo'"@,
                        origin_view(at),
                    ),
                ),
                f1,
                o1,
            )
        } else {
            match expr_transfer(f1, symbols, resolution, context.repeating_loop_scope, operand, t) {
                Err(x) => (Err(x), f1, o1),
                Ok(record) => {
                    let (shared, sync) = expected_pointer_flags(f1, expected);
                    let (types, id) = intern_spec(
                        f1.types,
                        CheckedTypeView::Pointer { target: t, shared, weak: false, sync, raw: false, mutable: false },
                    );
                    (
                        Ok(value_of(CheckedTypeId(id as usize))),
                        FactsView { types, ..f1 },
                        after_transfer(o1, record),
                    )
                },
            }
        },
        UnaryOperator::Deref => match type_at(f1, a) {
            Some(CheckedTypeView::Pointer { target, shared, weak, .. }) => if weak {
                (
                    Err(
                        error_at(
                            TypecheckErrorKind::Ownership,
                            "a weak pointer 'ptr[weak, T]' cannot be dereferenced directly; upgrade it with '[upg]' to 'opt[ptr[shared, T]]' first"@,
                            origin_view(node_origin_at(resolution, operand)),
                        ),
                    ),
                    f1,
                    o1,
                )
            } else if crate::transfers::moves(f1, symbols, target) {
                if type_at(f1, t) matches Some(CheckedTypeView::Borrowed { .. }) {
                    (
                        Err(
                            error_at(
                                TypecheckErrorKind::Ownership,
                                "cannot move a move-only pointee through a borrowed pointer; borrowed pointer dereference is read-only"@,
                                origin_view(at),
                            ),
                        ),
                        f1,
                        o1,
                    )
                } else if shared {
                    (
                        Err(
                            error_at(
                                TypecheckErrorKind::Ownership,
                                "cannot move a move-only pointee out of ptr[shared, T]; shared pointer dereference is read-only and requires a clone-safe pointee"@,
                                origin_view(at),
                            ),
                        ),
                        f1,
                        o1,
                    )
                } else {
                    match expr_transfer(f1, symbols, resolution, context.repeating_loop_scope, operand, t) {
                        Err(x) => (Err(x), f1, o1),
                        Ok(record) => (Ok(value_of(target)), f1, after_transfer(o1, record)),
                    }
                }
            } else {
                (Ok(value_of(target)), f1, o1)
            },
            _ => (Err(invalid_unary_error(f1, op, t)), f1, o1),
        },
        _ => match arithmetic_shape(f1, op, a) {
            Some(b) => {
                let (types, id) = intern_spec(f1.types, CheckedTypeView::Builtin(b));
                (
                    Ok(
                        TypedExpr {
                            value_type: Some(CheckedTypeId(id as usize)),
                            recoverable_effect: e.recoverable_effect,
                        },
                    ),
                    FactsView { types, ..f1 },
                    o1,
                )
            },
            None => (Err(invalid_unary_error(f1, op, t)), f1, o1),
        },
    }
}

/// The ownership state after the loan held by `binding` is given back at
/// `origin`.
pub open spec fn after_give_back(o: OwnershipView, binding: SymbolId, origin: crate::ids::SyntaxOriginView) -> OwnershipView {
    OwnershipView {
        borrow_bindings: o.borrow_bindings.remove(binding),
        active_borrows: crate::borrows::loans_ended(o.active_borrows, set![binding]),
        returned_borrows: o.returned_borrows.insert(binding, origin),
        ..o
    }
}

/// The ownership state after the guard on `mutex` taken in `scope` is
/// released, if there is one.
pub open spec fn after_guard_release(o: OwnershipView, mutex: SymbolId, scope: crate::ids::ScopeId) -> OwnershipView {
    if o.mutex_guards.contains_key(mutex) && o.mutex_guards[mutex].scope == scope {
        OwnershipView { mutex_guards: o.mutex_guards.remove(mutex), ..o }
    } else {
        o
    }
}

/// Giving back early the loan held by the borrow binding `operand`, within
/// the give-back at `at`: the operand is a name resolving to the binding;
/// a loan a deferred block reads lives until the block runs; the binding
/// must hold an active loan, which ends; a guard binding releases its lock.
pub open spec fn give_back_outcome(
    facts: FactsView,
    symbols: Map<SymbolId, TypedSymbol>,
    o: OwnershipView,
    resolution: &Resolution,
    context: TypeContext,
    operand: Expr,
    at: Option<SyntaxOrigin>,
) -> Outcome {
    match operand {
        Expr::Identifier { name, syntax_id: Some(id) } => match crate::resolution::resolved_use(
            resolution,
            id,
            crate::resolution::ReferenceKind::Identifier,
        ) {
            None => (
                Err(
                    error_at(
                        TypecheckErrorKind::InvalidInput,
                        "give-back target '"@ + name@ + "' does not resolve to a borrow binding"@,
                        origin_view(at),
                    ),
                ),
                facts,
                o,
            ),
            Some(binding) => match at {
                None => (
                    Err(
                        error_at(
                            TypecheckErrorKind::Internal,
                            "give-back expression lost its syntax origin"@,
                            None,
                        ),
                    ),
                    facts,
                    o,
                ),
                Some(origin) => match crate::ownership::first_deferred_use(o, binding) {
                    Some(deferred) => (
                        Err(
                            TypecheckErrorView {
                                kind: TypecheckErrorKind::BorrowReturned,
                                message: "borrow '"@ + name@
                                    + "' is captured by a deferred (dfr/edf) block and cannot be given back early; its loan lives until the block runs at scope exit"@,
                                origin: Some(origin@),
                                related: seq![(deferred.origin, "borrow captured by deferred block here"@)],
                            },
                        ),
                        facts,
                        o,
                    ),
                    None => if !o.borrow_bindings.contains_key(binding) {
                        (
                            Err(
                                error_at(
                                    TypecheckErrorKind::BorrowReturned,
                                    "'"@ + name@ + "' is not an active borrow binding"@,
                                    Some(origin@),
                                ),
                            ),
                            facts,
                            o,
                        )
                    } else {
                        let returned = after_give_back(o, binding, origin@);
                        let guard = symbols.contains_key(binding) && symbols[binding].is_mutex_guard;
                        (
                            Ok(TypedExpr { value_type: None, recoverable_effect: None }),
                            facts,
                            if guard {
                                after_guard_release(returned, o.borrow_bindings[binding].owner, context.scope_id)
                            } else {
                                returned
                            },
                        )
                    },
                },
            },
        },
        _ => (
            Err(
                error_at(
                    TypecheckErrorKind::InvalidInput,
                    "give-back requires a borrow binding identifier"@,
                    origin_view(at),
                ),
            ),
            facts,
            o,
        ),
    }
}

/// A shared loan `#owner` of the binding `operand` is rooted in, within the
/// loan at `at`: the owner must not be moved nor mutably lent, must have a
/// type, and the loan must have a position; the loan borrows the owner's
/// value.
pub open spec fn borrow_from_outcome(
    facts: FactsView,
    symbols: Map<SymbolId, TypedSymbol>,
    o: OwnershipView,
    resolution: &Resolution,
    operand: Expr,
    at: Option<SyntaxOrigin>,
) -> Outcome {
    let loans_of = |owner: SymbolId| crate::borrows::loans_on(o.active_borrows, owner);
    match borrow_source(resolution, operand) {
        None => (
            Err(
                error_at(
                    TypecheckErrorKind::InvalidInput,
                    "borrow-from requires an identifier owner"@,
                    origin_view(at),
                ),
            ),
            facts,
            o,
        ),
        Some(owner) => if o.moved_bindings.contains_key(owner) {
            (
                Err(
                    TypecheckErrorView {
                        kind: TypecheckErrorKind::Ownership,
                        message: "cannot borrow from an owner whose value was already moved"@,
                        origin: origin_view(at),
                        related: seq![(o.moved_bindings[owner], "ownership moved here"@)],
                    },
                ),
                facts,
                o,
            )
        } else if loans_of(owner).len() > 0 && loans_of(owner)[0].mutable {
            (
                Err(
                    TypecheckErrorView {
                        kind: TypecheckErrorKind::BorrowConflict,
                        message: "shared borrow conflicts with an active mutable borrow of the same owner"@,
                        origin: origin_view(at),
                        related: seq![(loans_of(owner)[0].origin, "mutable borrow created here"@)],
                    },
                ),
                facts,
                o,
            )
        } else if !(symbols.contains_key(owner) && symbols[owner].declared_type is Some) {
            (
                Err(
                    error_at(
                        TypecheckErrorKind::Internal,
                        "borrow-from owner lost its checked type"@,
                        origin_view(at),
                    ),
                ),
                facts,
                o,
            )
        } else if at is None {
            (
                Err(
                    error_at(
                        TypecheckErrorKind::Internal,
                        "borrow-from expression lost its syntax origin"@,
                        None,
                    ),
                ),
                facts,
                o,
            )
        } else {
            interned_outcome(
                facts,
                o,
                CheckedTypeView::Borrowed {
                    inner: shell_inner(facts, symbols[owner].declared_type->0),
                    mutable: false,
                },
            )
        },
    }
}

/// What applying `op` to the expression `operand`, where a value of type
/// `expected` may be wanted, comes to from `facts` and `o`. An unwrap is
/// typed as `unwrap_outcome` says; for the other operators the operand is
/// typed, must not be a recoverable result used as a plain value and must
/// have a type that resolves, and `applied_unary_outcome` decides.
pub open spec fn unary_outcome(
    facts: FactsView,
    symbols: Map<SymbolId, TypedSymbol>,
    o: OwnershipView,
    resolution: &Resolution,
    context: TypeContext,
    op: UnaryOperator,
    operand: Expr,
    expected: Option<CheckedTypeId>,
) -> Outcome
    decreases (Expr::UnaryOp { op, operand: Box::new(operand) }), 0nat,
{
    proof {
        let whole = Expr::UnaryOp { op, operand: Box::new(operand) };
        assert(decreases_to!(whole => whole->UnaryOp_operand));
    }
    let at = node_origin_at(resolution, Expr::UnaryOp { op, operand: Box::new(operand) });
    if op == UnaryOperator::GiveBack {
        give_back_outcome(facts, symbols, o, resolution, context, operand, at)
    } else if op == UnaryOperator::BorrowFrom {
        borrow_from_outcome(facts, symbols, o, resolution, operand, at)
    } else if op == UnaryOperator::Unwrap {
        unwrap_outcome(
            facts,
            symbols,
            resolution,
            context,
            operand,
            at,
            node_outcome(facts, symbols, o, resolution, observed(context), operand, None),
        )
    } else {
        let (er, f1, o1) = node_outcome(facts, symbols, o, resolution, context, operand, None);
        match er {
            Err(e) => (Err(e), f1, o1),
            Ok(e) => if e.recoverable_effect is Some && context.error_call_mode == ErrorCallMode::Propagate {
                (
                    Err(
                        plain_use_error(
                            "plain use of an errorful expression"@,
                            origin_view(node_origin_at(resolution, operand)),
                        ),
                    ),
                    f1,
                    o1,
                )
            } else if e.value_type is None {
                (Err(untyped_operand_error()), f1, o1)
            } else {
                match crate::apparent::apparent_outcome(f1, symbols, e.value_type->0) {
                    Err(_) => (Err(crate::apparent::cycle_error()), f1, o1),
                    Ok(a) => applied_unary_outcome(
                        f1,
                        symbols,
                        o1,
                        resolution,
                        context,
                        op,
                        operand,
                        expected,
                        e,
                        a,
                        at,
                    ),
                }
            }
        }
    }
}

/// The name an ownership operation's source is refused by in a diagnostic.
pub open spec fn source_name(mov: bool, copy: bool) -> Seq<char> {
    if mov {
        "[mov]"@
    } else if copy {
        "[cpy]"@
    } else {
        "[cln]"@
    }
}

/// How many source operations `options` names.
pub open spec fn source_count(options: Seq<OwnershipOption>) -> int {
    (if options.contains(OwnershipOption::Move) { 1int } else { 0int }) + (if options.contains(
        OwnershipOption::Copy,
    ) {
        1int
    } else {
        0int
    }) + (if options.contains(OwnershipOption::Clone) { 1int } else { 0int }) + (if options.contains(
        OwnershipOption::Borrow,
    ) {
        1int
    } else {
        0int
    }) + (if options.contains(OwnershipOption::Weak) { 1int } else { 0int }) + (if options.contains(
        OwnershipOption::Upgrade,
    ) {
        1int
    } else {
        0int
    }) + (if options.contains(OwnershipOption::Finalize) { 1int } else { 0int })
}

/// The syntax node of the binding a place expression is rooted in.
pub open spec fn root_identifier(node: Expr) -> Option<SyntaxNodeId>
    decreases node,
{
    match node {
        Expr::Identifier { syntax_id: Some(id), .. } => Some(id),
        Expr::Commented(inner) => root_identifier(*inner),
        _ => None,
    }
}

/// The owner a loan of `operand` borrows from: the binding it is rooted
/// in, looking through a loan operation around it.
pub open spec fn borrow_source(resolution: &Resolution, operand: Expr) -> Option<SymbolId> {
    let place = match operand {
        Expr::OwnershipOp { options, operand: inner } => if options@.contains(OwnershipOption::Borrow) {
            *inner
        } else {
            operand
        },
        Expr::UnaryOp { op: UnaryOperator::BorrowFrom, operand: inner } => *inner,
        _ => operand,
    };
    match root_identifier(place) {
        Some(id) => crate::resolution::resolved_use(resolution, id, crate::resolution::ReferenceKind::Identifier),
        None => None,
    }
}

/// Whether `operand` is a name bound to a mutex guard value.
pub open spec fn names_guard(symbols: Map<SymbolId, TypedSymbol>, resolution: &Resolution, operand: Expr) -> bool {
    match stripped(operand) {
        Expr::Identifier { syntax_id: Some(id), .. } => match crate::resolution::resolved_use(
            resolution,
            id,
            crate::resolution::ReferenceKind::Identifier,
        ) {
            Some(s) => symbols.contains_key(s) && symbols[s].is_mutex_guard,
            None => false,
        },
        _ => false,
    }
}

/// The type a value of type `t` holds when it is an owned or borrowed shell,
/// else `t`.
pub open spec fn shell_inner(facts: FactsView, t: CheckedTypeId) -> CheckedTypeId {
    match type_at(facts, t) {
        Some(CheckedTypeView::Owned { inner }) => inner,
        Some(CheckedTypeView::Borrowed { inner, .. }) => inner,
        _ => t,
    }
}

/// The operand of an ownership operation typed for `usage`: its type, or
/// the first diagnostic.
pub open spec fn typed_operand(
    context: TypeContext,
    resolution: &Resolution,
    operand: Expr,
    e: TypedExpr,
    usage: Seq<char>,
    untyped: Seq<char>,
) -> Result<CheckedTypeId, TypecheckErrorView> {
    if e.recoverable_effect is Some && context.error_call_mode == ErrorCallMode::Propagate {
        Err(plain_use_error(usage, origin_view(node_origin_at(resolution, operand))))
    } else if e.value_type is None {
        Err(error_at(TypecheckErrorKind::InvalidInput, untyped, None))
    } else {
        Ok(e.value_type->0)
    }
}

/// Interning `t` in `facts`: its id as a value, with ownership `o`.
pub open spec fn interned_outcome(facts: FactsView, o: OwnershipView, t: CheckedTypeView) -> Outcome {
    let (types, id) = intern_spec(facts.types, t);
    (Ok(value_of(CheckedTypeId(id as usize))), FactsView { types, ..facts }, o)
}

/// `[weak]` and `[upg]` on an operand typed `typed`: a weak handle from a
/// shared pointer, or an optional shared pointer from a weak handle.
pub open spec fn managed_pointer_outcome(
    symbols: Map<SymbolId, TypedSymbol>,
    resolution: &Resolution,
    context: TypeContext,
    weak_op: bool,
    operand: Expr,
    at: Option<SyntaxOrigin>,
    typed: Outcome,
) -> Outcome {
    let (er, f1, o1) = typed;
    match er {
        Err(e) => (Err(e), f1, o1),
        Ok(e) => match typed_operand(
            context,
            resolution,
            operand,
            e,
            "operand of a managed pointer operation"@,
            "managed pointer operation operand does not have a type"@,
        ) {
            Err(x) => (Err(x), f1, o1),
            Ok(t) => match crate::apparent::apparent_outcome(f1, symbols, t) {
                Err(_) => (Err(crate::apparent::cycle_error()), f1, o1),
                Ok(a) => match type_at(f1, a) {
                    Some(CheckedTypeView::Pointer { target, shared, weak, sync, raw, mutable }) => if weak_op {
                        if shared && !weak {
                            interned_outcome(
                                f1,
                                o1,
                                CheckedTypeView::Pointer { target, shared: false, weak: true, sync, raw, mutable },
                            )
                        } else {
                            (
                                Err(
                                    error_at(
                                        TypecheckErrorKind::InvalidInput,
                                        "'[weak]' requires a 'ptr[shared, T]' operand to downgrade"@,
                                        origin_view(at),
                                    ),
                                ),
                                f1,
                                o1,
                            )
                        }
                    } else if weak {
                        let (types, id) = intern_spec(
                            f1.types,
                            CheckedTypeView::Pointer { target, shared: true, weak: false, sync, raw, mutable },
                        );
                        interned_outcome(
                            FactsView { types, ..f1 },
                            o1,
                            CheckedTypeView::Optional { inner: CheckedTypeId(id as usize) },
                        )
                    } else {
                        (
                            Err(
                                error_at(
                                    TypecheckErrorKind::InvalidInput,
                                    "'[upg]' requires a 'ptr[weak, T]' operand to upgrade"@,
                                    origin_view(at),
                                ),
                            ),
                            f1,
                            o1,
                        )
                    },
                    _ => (
                        Err(
                            error_at(
                                TypecheckErrorKind::InvalidInput,
                                if weak_op {
                                    "'[weak]' requires a 'ptr[shared, T]' operand to downgrade"@
                                } else {
                                    "'[upg]' requires a 'ptr[weak, T]' operand to upgrade"@
                                },
                                origin_view(at),
                            ),
                        ),
                        f1,
                        o1,
                    ),
                },
            },
        },
    }
}

/// Whether a loan of `owner`, mutable or not, may be taken in state `o`,
/// seen at `origin`: the owner was not moved, no conflicting loan is
/// active, a mutable loan needs a mutable owner, and the owner has a type.
/// The owner's type, or the refusal.
pub open spec fn loan_check(
    symbols: Map<SymbolId, TypedSymbol>,
    o: OwnershipView,
    owner: SymbolId,
    mutable: bool,
    origin: crate::ids::SyntaxOriginView,
    at: Option<SyntaxOrigin>,
) -> Result<CheckedTypeId, TypecheckErrorView> {
    let loans = crate::borrows::loans_on(o.active_borrows, owner);
    if o.moved_bindings.contains_key(owner) {
        Err(
            TypecheckErrorView {
                kind: TypecheckErrorKind::Ownership,
                message: "cannot borrow from an owner whose value was already moved"@,
                origin: Some(origin),
                related: seq![(o.moved_bindings[owner], "ownership moved here"@)],
            },
        )
    } else if loans.len() > 0 && (loans[0].mutable || mutable) {
        Err(
            TypecheckErrorView {
                kind: TypecheckErrorKind::BorrowConflict,
                message: "borrow conflicts with an active borrow of the same owner"@,
                origin: Some(origin),
                related: seq![(loans[0].origin, "conflicting borrow created here"@)],
            },
        )
    } else if mutable && !(symbols.contains_key(owner) && symbols[owner].is_mutable) {
        Err(
            error_at(
                TypecheckErrorKind::BorrowMutability,
                "mutable borrow requires an owner declared with 'var[mut]'"@,
                Some(origin),
            ),
        )
    } else if symbols.contains_key(owner) && symbols[owner].declared_type is Some {
        Ok(symbols[owner].declared_type->0)
    } else {
        Err(
            error_at(
                TypecheckErrorKind::Internal,
                "borrow operation owner lost its checked type"@,
                origin_view(at),
            ),
        )
    }
}

/// A loan `[bor]` (or `[mut, bor]` when `mutable`) of `operand`, whose
/// typing from `facts` and `o` comes to `typed`: a loan of a binding is
/// checked against its moves and active loans and borrows the binding's
/// value; a loan of any other expression borrows its value.
pub open spec fn borrow_op_outcome(
    facts: FactsView,
    symbols: Map<SymbolId, TypedSymbol>,
    o: OwnershipView,
    resolution: &Resolution,
    context: TypeContext,
    mutable: bool,
    operand: Expr,
    typed: Outcome,
) -> Outcome {
    let at = node_origin_at(resolution, operand);
        match borrow_source(resolution, operand) {
            None => {
                let (er, f1, o1) = typed;
                match er {
                    Err(e) => (Err(e), f1, o1),
                    Ok(e) => match typed_operand(
                        context,
                        resolution,
                        operand,
                        e,
                        "operand of a borrow operation"@,
                        "borrow operation operand does not have a type"@,
                    ) {
                        Err(x) => (Err(x), f1, o1),
                        Ok(t) => interned_outcome(
                            f1,
                            o1,
                            CheckedTypeView::Borrowed { inner: shell_inner(f1, t), mutable },
                        ),
                    },
                }
            },
            Some(owner) => match at {
                None => (
                    Err(
                        error_at(
                            TypecheckErrorKind::Internal,
                            "borrow operation lost its syntax origin"@,
                            None,
                        ),
                    ),
                    facts,
                    o,
                ),
                Some(origin) => match loan_check(symbols, o, owner, mutable, origin@, at) {
                    Err(x) => (Err(x), facts, o),
                    Ok(owner_type) => {
                        let (er, f1, o1) = typed;
                        match er {
                            Err(e) => (Err(e), f1, o1),
                            Ok(e) => if stripped(operand) is Identifier {
                                interned_outcome(
                                    f1,
                                    o1,
                                    CheckedTypeView::Borrowed { inner: shell_inner(f1, owner_type), mutable },
                                )
                            } else {
                                match typed_operand(
                                    context,
                                    resolution,
                                    operand,
                                    e,
                                    "operand of a borrow operation"@,
                                    "borrow operation operand does not have a type"@,
                                ) {
                                    Err(x) => (Err(x), f1, o1),
                                    Ok(t) => interned_outcome(
                                        f1,
                                        o1,
                                        CheckedTypeView::Borrowed { inner: t, mutable },
                                    ),
                                }
                            },
                        }
                    },
                },
            },
        }
}

/// A value-source operation (`[mov]`, `[cpy]`, `[cln]`, `[fin]`, with
/// `[new]` for an allocation) on `operand`, whose typing comes to `typed`:
/// a heap allocation needs the heap; a move or a finalization hands the
/// operand on and a move of a binding marks it moved; a finalization has
/// no value, an allocation owns the operand's value and the other sources
/// give the operand's type.
pub open spec fn value_source_outcome(
    symbols: Map<SymbolId, TypedSymbol>,
    resolution: &Resolution,
    context: TypeContext,
    mov: bool,
    finalize: bool,
    new: bool,
    operand: Expr,
    typed: Outcome,
) -> Outcome {
    let at = node_origin_at(resolution, operand);
        let (er, f1, o1) = typed;
        match er {
            Err(e) => (Err(e), f1, o1),
            Ok(e) => match typed_operand(
                context,
                resolution,
                operand,
                e,
                "operand of an ownership operation"@,
                "ownership operation operand does not have a type"@,
            ) {
                Err(x) => (Err(x), f1, o1),
                Ok(t) => if new && f1.capability_model == TypecheckCapabilityModel::Core {
                    (
                        Err(
                            error_at(
                                TypecheckErrorKind::Unsupported,
                                "heap allocation requires heap support; choose fol_model = 'memo'"@,
                                origin_view(at),
                            ),
                        ),
                        f1,
                        o1,
                    )
                } else {
                    let handed = if mov || finalize {
                        match expr_transfer(f1, symbols, resolution, context.repeating_loop_scope, operand, t) {
                            Err(x) => Err(x),
                            Ok(record) => Ok(after_transfer(o1, record)),
                        }
                    } else {
                        Ok(o1)
                    };
                    match handed {
                        Err(x) => (Err(x), f1, o1),
                        Ok(o2) => {
                            let o3 = if mov {
                                match (stripped(operand), node_origin_at(resolution, operand)) {
                                    (Expr::Identifier { syntax_id: Some(id), .. }, Some(og)) => match crate::resolution::resolved_use(
                                        resolution,
                                        id,
                                        crate::resolution::ReferenceKind::Identifier,
                                    ) {
                                        Some(owner) => crate::transfers::after_move(o2, owner, og@),
                                        None => o2,
                                    },
                                    _ => o2,
                                }
                            } else {
                                o2
                            };
                            if finalize {
                                (Ok(TypedExpr { value_type: None, recoverable_effect: None }), f1, o3)
                            } else if new {
                                interned_outcome(f1, o3, CheckedTypeView::Owned { inner: shell_inner(f1, t) })
                            } else {
                                (Ok(value_of(t)), f1, o3)
                            }
                        },
                    }
                },
            },
        }
}

/// What an ownership operation with `options` on `operand` comes to from
/// `facts` and `o`. Exactly one source is named, or a loan with at most
/// `mut`; a mutex guard is not moved, copied or cloned whole. A weak handle
/// or an upgrade is built from a managed pointer. A loan of a binding is
/// checked against its moves and active loans and borrows the binding's
/// value; a loan of any other expression borrows its value. Otherwise the
/// operand is typed; a heap allocation needs the heap; a move or a
/// finalization hands the operand on and a move of a binding marks it
/// moved; a finalization has no value, an allocation owns the operand's
/// value and the other sources give the operand's type.
pub open spec fn ownership_op_outcome(
    facts: FactsView,
    symbols: Map<SymbolId, TypedSymbol>,
    o: OwnershipView,
    resolution: &Resolution,
    context: TypeContext,
    options: Vec<OwnershipOption>,
    operand: Expr,
) -> Outcome
    decreases (Expr::OwnershipOp { options, operand: Box::new(operand) }), 0nat,
{
    proof {
        let whole = Expr::OwnershipOp { options, operand: Box::new(operand) };
        assert(decreases_to!(whole => whole->OwnershipOp_operand));
    }
    let opts = options@;
    let borrow = opts.contains(OwnershipOption::Borrow);
    let mutable = opts.contains(OwnershipOption::Mutable);
    let mov = opts.contains(OwnershipOption::Move);
    let copy = opts.contains(OwnershipOption::Copy);
    let clone = opts.contains(OwnershipOption::Clone);
    let finalize = opts.contains(OwnershipOption::Finalize);
    let new = opts.contains(OwnershipOption::New);
    let at = node_origin_at(resolution, operand);
    let refuse = |kind: TypecheckErrorKind, message: Seq<char>|
        (Err(error_at(kind, message, origin_view(at))), facts, o);
    if borrow && source_count(opts) > 1 {
        refuse(
            TypecheckErrorKind::InvalidInput,
            "'[bor]' cannot be combined with another source operation; use '[bor]' or '[mut, bor]'"@,
        )
    } else if !borrow && mutable {
        refuse(
            TypecheckErrorKind::InvalidInput,
            "'[mut]' is only valid combined with '[bor]' as '[mut, bor]'"@,
        )
    } else if !borrow && source_count(opts) != 1 {
        refuse(
            TypecheckErrorKind::InvalidInput,
            "an ownership operation needs exactly one source: '[mov]', '[cpy]', '[cln]', '[bor]', '[weak]', '[upg]', or '[fin]'"@,
        )
    } else if (mov || copy || clone) && names_guard(symbols, resolution, operand) {
        refuse(
            TypecheckErrorKind::Ownership,
            "a mutex guard cannot be moved, copied, or cloned as a whole; read its fields (e.g. 'guard.value') instead of '"@
                + source_name(mov, copy) + "guard'"@,
        )
    } else if opts.contains(OwnershipOption::Weak) || opts.contains(OwnershipOption::Upgrade) {
        managed_pointer_outcome(
            symbols,
            resolution,
            context,
            opts.contains(OwnershipOption::Weak),
            operand,
            at,
            node_outcome(facts, symbols, o, resolution, context, operand, None),
        )
    } else if borrow {
        borrow_op_outcome(
            facts,
            symbols,
            o,
            resolution,
            context,
            mutable,
            operand,
            node_outcome(facts, symbols, o, resolution, context, operand, None),
        )
    } else {
        value_source_outcome(
            symbols,
            resolution,
            context,
            mov,
            finalize,
            new,
            operand,
            node_outcome(facts, symbols, o, resolution, context, operand, None),
        )
    }
}

/// What applying `op` to the expressions `left` and `right` comes to from
/// `facts`: the left operand is typed and must not be a recoverable result
/// used as a plain value, then the right one likewise, then the operator
/// is applied to their types and the result type interned.
pub open spec fn binary_outcome(
    facts: FactsView,
    symbols: Map<SymbolId, TypedSymbol>,
    o: OwnershipView,
    resolution: &Resolution,
    context: TypeContext,
    op: BinaryOperator,
    left: Expr,
    right: Expr,
) -> Outcome
    decreases (Expr::BinaryOp { op, left: Box::new(left), right: Box::new(right) }), 0nat,
{
    proof {
        let whole = Expr::BinaryOp { op, left: Box::new(left), right: Box::new(right) };
        assert(decreases_to!(whole => whole->left));
        assert(decreases_to!(whole => whole->right));
    }
    let usage = "plain use of an errorful expression"@;
    let propagate = context.error_call_mode == ErrorCallMode::Propagate;
    let left_origin = node_origin_at(resolution, left);
    let right_origin = node_origin_at(resolution, right);
    let (lr, f1, o1) = node_outcome(facts, symbols, o, resolution, context, left, None);
    match lr {
        Err(e) => (Err(e), f1, o1),
        Ok(l) => if l.recoverable_effect is Some && propagate {
            (Err(plain_use_error(usage, origin_view(left_origin))), f1, o1)
        } else {
            let (rr, f2, o2) = node_outcome(f1, symbols, o1, resolution, context, right, None);
            match rr {
                Err(e) => (Err(e), f2, o2),
                Ok(r) => if r.recoverable_effect is Some && propagate {
                    (Err(plain_use_error(usage, origin_view(right_origin))), f2, o2)
                } else {
                    match value_binary_outcome(
                        f2,
                        symbols,
                        context,
                        op,
                        l,
                        r,
                        origin_view(left_origin),
                        origin_view(right_origin),
                    ) {
                        Err(e) => (Err(e), f2, o2),
                        Ok((shape, effect)) => {
                            let (types, id) = intern_spec(f2.types, shape);
                            (
                                Ok(
                                    TypedExpr {
                                        value_type: Some(CheckedTypeId(id as usize)),
                                        recoverable_effect: effect,
                                    },
                                ),
                                FactsView { types, ..f2 },
                                o2,
                            )
                        },
                    }
                },
            }
        },
    }
}

/// Every type resolves to its apparent type once the facts are ready: a
/// stored type by readiness, any other in one step.
pub(crate) proof fn lemma_ready_resolves(f: FactsView, symbols: Map<SymbolId, TypedSymbol>, id: CheckedTypeId)
    requires
        walk_ready(f, symbols),
    ensures
        apparent_resolves(f, symbols, id),
{
    if id.0 >= f.types.len() {
        assert(!f.apparent_type_overrides.contains_key(id));
        assert(apparent_step(f, symbols, id, Set::empty()) == ApparentStep::Stop(id));
        assert(apparent_within(f, symbols, id, Set::empty(), 1) is Some) by {
            reveal_with_fuel(apparent_within, 2);
        }
    }
}

/// Typing a name records what the use resolved to and leaves the types and
/// their recorded apparent types alone.
proof fn lemma_identifier_keeps_types(
    facts: FactsView,
    symbols: Map<SymbolId, TypedSymbol>,
    o: OwnershipView,
    resolution: &Resolution,
    context: TypeContext,
    name: &str,
    syntax_id: Option<SyntaxNodeId>,
)
    ensures
        ({
            let after = identifier_reference_outcome(
                facts,
                symbols,
                o,
                resolution,
                context,
                name,
                syntax_id,
            ).1;
            after.types == facts.types && after.apparent_type_overrides
                == facts.apparent_type_overrides
        }),
{
}

/// Typing a qualified name records what the use resolved to and leaves the
/// types and their recorded apparent types alone.
proof fn lemma_qualified_keeps_types(
    facts: FactsView,
    symbols: Map<SymbolId, TypedSymbol>,
    resolution: &Resolution,
    context: TypeContext,
    path: &str,
    syntax_id: Option<SyntaxNodeId>,
)
    ensures
        ({
            let after = crate::references::qualified_reference_outcome(
                facts,
                symbols,
                resolution,
                context,
                path,
                syntax_id,
            ).1;
            after.types == facts.types && after.apparent_type_overrides
                == facts.apparent_type_overrides
        }),
{
}

/// A name typed as a value has a stored type.
proof fn lemma_identifier_value_stored(
    facts: FactsView,
    symbols: Map<SymbolId, TypedSymbol>,
    o: OwnershipView,
    resolution: &Resolution,
    context: TypeContext,
    name: &str,
    syntax_id: Option<SyntaxNodeId>,
)
    requires
        walk_ready(facts, symbols),
    ensures
        value_stored(
            identifier_reference_outcome(facts, symbols, o, resolution, context, name, syntax_id).0,
            facts,
        ),
{
    if let Some(id) = syntax_id {
        if let Some(rid) = crate::resolution::first_reference(
            resolution.references.entries(),
            id,
            crate::resolution::ReferenceKind::Identifier,
            0,
        ) {
            lemma_reference_value_declared(facts, symbols, resolution, rid, origin_at(resolution, id));
        }
    }
}

/// A qualified name typed as a value has a stored type.
proof fn lemma_qualified_value_stored(
    facts: FactsView,
    symbols: Map<SymbolId, TypedSymbol>,
    resolution: &Resolution,
    context: TypeContext,
    path: &str,
    syntax_id: Option<SyntaxNodeId>,
)
    requires
        walk_ready(facts, symbols),
    ensures
        value_stored(
            crate::references::qualified_reference_outcome(
                facts,
                symbols,
                resolution,
                context,
                path,
                syntax_id,
            ).0,
            facts,
        ),
{
    if let Some(id) = syntax_id {
        if let Some(rid) = crate::resolution::first_reference(
            resolution.references.entries(),
            id,
            crate::resolution::ReferenceKind::QualifiedIdentifier,
            0,
        ) {
            lemma_reference_value_declared(facts, symbols, resolution, rid, origin_at(resolution, id));
        }
    }
}

/// A value operator always gives a builtin type.
proof fn lemma_operator_gives_builtin(
    facts: FactsView,
    symbols: Map<SymbolId, TypedSymbol>,
    context: TypeContext,
    op: BinaryOperator,
    left: TypedExpr,
    right: TypedExpr,
    left_origin: Option<crate::ids::SyntaxOriginView>,
    right_origin: Option<crate::ids::SyntaxOriginView>,
)
    requires
        value_binary_outcome(
            facts,
            symbols,
            context,
            op,
            left,
            right,
            left_origin,
            right_origin,
        ) is Ok,
    ensures
        value_binary_outcome(
            facts,
            symbols,
            context,
            op,
            left,
            right,
            left_origin,
            right_origin,
        )->Ok_0.0 is Builtin,
{
}

/// Types `literal` where a value of type `expected` may be wanted.
pub fn type_literal(typed: &mut TypedProgram, literal: Literal, expected: Option<CheckedTypeId>) -> (r:
    Result<TypedExpr, TypecheckError>)
    requires
        walk_ready(old(typed).facts(), old(typed).symbol_facts()),
        expected matches Some(e) ==> e.0 < old(typed).facts().types.len(),
    ensures
        (result_view(r), final(typed).facts()) == literal_outcome(
            old(typed).facts(),
            old(typed).symbol_facts(),
            literal,
            expected,
        ),
        value_stored(result_view(r), final(typed).facts()),
        walk_ready(final(typed).facts(), final(typed).symbol_facts()),
        extends(old(typed).facts(), final(typed).facts()),
        final(typed).ownership() == old(typed).ownership(),
        final(typed).symbol_facts() == old(typed).symbol_facts(),
{
    let core = match typed.capability_model() {
        TypecheckCapabilityModel::Core => true,
        _ => false,
    };
    let heap_message = "string literals require heap support and are unavailable in 'fol_model = core'";
    let b = match literal {
        Literal::Integer => BuiltinType::Int(IntWidth::DEFAULT),
        Literal::Float => BuiltinType::Float(FloatWidth::DEFAULT),
        Literal::Boolean => BuiltinType::Bool,
        Literal::String => {
            if core {
                return Err(TypecheckError::new(TypecheckErrorKind::Unsupported, heap_message));
            }
            BuiltinType::Str
        },
        Literal::Character => {
            proof {
                lemma_intern_keeps_ready(typed.facts(), typed.symbol_facts(), CheckedTypeView::Builtin(BuiltinType::Str));
            }
            let str_id = typed.intern_type(CheckedType::Builtin(BuiltinType::Str));
            if expected == Some(str_id) {
                if core {
                    return Err(TypecheckError::new(TypecheckErrorKind::Unsupported, heap_message));
                }
                return Ok(TypedExpr { value_type: Some(str_id), recoverable_effect: None });
            }
            BuiltinType::Char(CharEncoding::DEFAULT)
        },
        Literal::Nil => {
            if let Some(e) = expected {
                proof {
                    lemma_ready_resolves(typed.facts(), typed.symbol_facts(), e);
                }
            }
            return match crate::apparent::expected_nil_shell_type(typed, expected) {
                Ok(Some(shell)) => Ok(TypedExpr { value_type: Some(shell), recoverable_effect: None }),
                Ok(None) => Err(
                    TypecheckError::new(
                        TypecheckErrorKind::InvalidInput,
                        "nil literals require an expected opt[...] or err[...] shell type in V1",
                    ),
                ),
                Err(e) => Err(e),
            };
        },
    };
    proof {
        lemma_intern_keeps_ready(typed.facts(), typed.symbol_facts(), CheckedTypeView::Builtin(b));
    }
    let id = typed.intern_type(CheckedType::Builtin(b));
    Ok(TypedExpr { value_type: Some(id), recoverable_effect: None })
}

/// Types `node` where a value of type `expected` may be wanted, recording
/// what it learns in `typed`.
pub fn type_node_with_expectation(
    typed: &mut TypedProgram,
    resolution: &Resolution,
    context: TypeContext,
    node: &Expr,
    expected: Option<CheckedTypeId>,
) -> (r: Result<TypedExpr, TypecheckError>)
    requires
        walk_ready(old(typed).facts(), old(typed).symbol_facts()),
        loop_walks_end(resolution, context.repeating_loop_scope),
        expected matches Some(e) ==> e.0 < old(typed).facts().types.len(),
    ensures
        (result_view(r), final(typed).facts(), final(typed).ownership()) == node_outcome(
            old(typed).facts(),
            old(typed).symbol_facts(),
            old(typed).ownership(),
            resolution,
            context,
            *node,
            expected,
        ),
        value_stored(result_view(r), final(typed).facts()),
        walk_ready(final(typed).facts(), final(typed).symbol_facts()),
        extends(old(typed).facts(), final(typed).facts()),
        final(typed).symbol_facts() == old(typed).symbol_facts(),
    decreases *node, 1nat,
{
    let value = match node {
        Expr::Comment => TypedExpr::none(),
        Expr::Commented(inner) => match type_node_with_expectation(
            typed,
            resolution,
            context,
            inner,
            expected,
        ) {
            Ok(e) => e,
            Err(e) => {
                return Err(e);
            },
        },
        Expr::Literal(literal) => match type_literal(typed, *literal, expected) {
            Ok(e) => e,
            Err(e) => {
                return Err(e);
            },
        },
        Expr::Identifier { name, syntax_id } => {
            let ghost before = typed.facts();
            let outcome = type_identifier_reference(typed, resolution, context, name, *syntax_id);
            proof {
                lemma_identifier_keeps_types(
                    before,
                    typed.symbol_facts(),
                    typed.ownership(),
                    resolution,
                    context,
                    *name,
                    *syntax_id,
                );
                lemma_ready_extends(before, typed.facts(), typed.symbol_facts());
                lemma_identifier_value_stored(
                    before,
                    typed.symbol_facts(),
                    typed.ownership(),
                    resolution,
                    context,
                    *name,
                    *syntax_id,
                );
            }
            match outcome {
                Ok(e) => e,
                Err(e) => {
                    return Err(e);
                },
            }
        },
        Expr::QualifiedIdentifier { path, syntax_id } => {
            let ghost before = typed.facts();
            let outcome = crate::references::type_qualified_identifier_reference(
                typed,
                resolution,
                context,
                path,
                *syntax_id,
            );
            proof {
                lemma_qualified_keeps_types(
                    before,
                    typed.symbol_facts(),
                    resolution,
                    context,
                    *path,
                    *syntax_id,
                );
                lemma_ready_extends(before, typed.facts(), typed.symbol_facts());
                lemma_qualified_value_stored(
                    before,
                    typed.symbol_facts(),
                    resolution,
                    context,
                    *path,
                    *syntax_id,
                );
            }
            match outcome {
                Ok(e) => e,
                Err(e) => {
                    return Err(e);
                },
            }
        },
        Expr::OwnershipOp { options, operand } => match type_ownership_op(
            typed,
            resolution,
            context,
            options,
            operand,
        ) {
            Ok(e) => e,
            Err(e) => {
                return Err(e);
            },
        },
        Expr::UnaryOp { op, operand } => match type_unary_op(typed, resolution, context, *op, operand, expected) {
            Ok(e) => e,
            Err(e) => {
                return Err(e);
            },
        },
        Expr::BinaryOp { op, left, right } => match type_binary_op(
            typed,
            resolution,
            context,
            *op,
            left,
            right,
        ) {
            Ok(e) => e,
            Err(e) => {
                return Err(e);
            },
        },
    };
    match value.value_type {
        Some(t) => match reject_embedded_full_channel(typed, t, node_origin(resolution, node)) {
            Ok(()) => Ok(value),
            Err(e) => Err(e),
        },
        None => Ok(value),
    }
}

/// Types `node` where no particular type is wanted.
pub fn type_node(typed: &mut TypedProgram, resolution: &Resolution, context: TypeContext, node: &Expr) -> (r:
    Result<TypedExpr, TypecheckError>)
    requires
        walk_ready(old(typed).facts(), old(typed).symbol_facts()),
        loop_walks_end(resolution, context.repeating_loop_scope),
    ensures
        (result_view(r), final(typed).facts(), final(typed).ownership()) == node_outcome(
            old(typed).facts(),
            old(typed).symbol_facts(),
            old(typed).ownership(),
            resolution,
            context,
            *node,
            None,
        ),
        value_stored(result_view(r), final(typed).facts()),
        walk_ready(final(typed).facts(), final(typed).symbol_facts()),
        final(typed).symbol_facts() == old(typed).symbol_facts(),
{
    type_node_with_expectation(typed, resolution, context, node, None)
}

/// Types the binary operator `op` applied to the expressions `left` and
/// `right`, recording what it learns in `typed`.
pub fn type_binary_op(
    typed: &mut TypedProgram,
    resolution: &Resolution,
    context: TypeContext,
    op: BinaryOperator,
    left: &Expr,
    right: &Expr,
) -> (r: Result<TypedExpr, TypecheckError>)
    requires
        walk_ready(old(typed).facts(), old(typed).symbol_facts()),
        loop_walks_end(resolution, context.repeating_loop_scope),
    ensures
        value_stored(result_view(r), final(typed).facts()),
        (result_view(r), final(typed).facts(), final(typed).ownership()) == binary_outcome(
            old(typed).facts(),
            old(typed).symbol_facts(),
            old(typed).ownership(),
            resolution,
            context,
            op,
            *left,
            *right,
        ),
        walk_ready(final(typed).facts(), final(typed).symbol_facts()),
        extends(old(typed).facts(), final(typed).facts()),
        final(typed).symbol_facts() == old(typed).symbol_facts(),
    decreases (Expr::BinaryOp { op, left: Box::new(*left), right: Box::new(*right) }), 0nat,
{
    proof {
        let whole = Expr::BinaryOp { op, left: Box::new(*left), right: Box::new(*right) };
        assert(decreases_to!(whole => whole->left));
        assert(decreases_to!(whole => whole->right));
    }
    let usage = "plain use of an errorful expression";
    let left_origin = node_origin(resolution, left);
    let right_origin = node_origin(resolution, right);
    let left_raw = match type_node_with_expectation(typed, resolution, context, left, None) {
        Ok(e) => e,
        Err(e) => {
            return Err(e);
        },
    };
    let left_expr = match plain_value_expr(
        typed,
        context,
        left_raw,
        crate::ids::copy_origin(&left_origin),
        usage,
    ) {
        Ok(e) => e,
        Err(e) => {
            return Err(e);
        },
    };
    let right_raw = match type_node_with_expectation(typed, resolution, context, right, None) {
        Ok(e) => e,
        Err(e) => {
            return Err(e);
        },
    };
    let right_expr = match plain_value_expr(
        typed,
        context,
        right_raw,
        crate::ids::copy_origin(&right_origin),
        usage,
    ) {
        Ok(e) => e,
        Err(e) => {
            return Err(e);
        },
    };
    let ghost f2 = typed.facts();
    let ghost sy = typed.symbol_facts();
    proof {
        if let Some(t) = left_expr.value_type {
            lemma_ready_resolves(f2, sy, t);
        }
        if let Some(t) = right_expr.value_type {
            lemma_ready_resolves(f2, sy, t);
        }
        let outcome = value_binary_outcome(
            f2,
            sy,
            context,
            op,
            left_expr,
            right_expr,
            origin_view(left_origin),
            origin_view(right_origin),
        );
        if outcome is Ok {
            lemma_operator_gives_builtin(
                f2,
                sy,
                context,
                op,
                left_expr,
                right_expr,
                origin_view(left_origin),
                origin_view(right_origin),
            );
            lemma_intern_keeps_ready(f2, sy, CheckedTypeView::Builtin(outcome->Ok_0.0->Builtin_0));
        }
    }
    type_value_binary_op(typed, context, op, left_expr, right_expr, left_origin, right_origin)
}

/// A comparison or boolean connective written between two expressions
/// gives `bol` exactly when both operands, typed in turn, are plain values
/// whose apparent types are equal and support equality (for `==`, `!=`),
/// are equal and ordered (for the order tests), or are both `bol` (for
/// `and`, `or`, `xor`); otherwise it is refused as invalid input naming the
/// operator and both operand types.
pub proof fn law_binary_comparisons_give_bool(
    facts: FactsView,
    symbols: Map<SymbolId, TypedSymbol>,
    o: OwnershipView,
    resolution: &Resolution,
    context: TypeContext,
    op: BinaryOperator,
    left: Expr,
    right: Expr,
)
    requires
        crate::operators::gives_bool(op),
        ({
            let (lr, f1, o1) = node_outcome(facts, symbols, o, resolution, context, left, None);
            let (rr, f2, o2) = node_outcome(f1, symbols, o1, resolution, context, right, None);
            &&& lr matches Ok(l) && l.value_type is Some && l.recoverable_effect is None
            &&& rr matches Ok(r) && r.value_type is Some && r.recoverable_effect is None
            &&& crate::apparent::apparent_outcome(f2, symbols, lr->Ok_0.value_type->0) is Ok
            &&& crate::apparent::apparent_outcome(f2, symbols, rr->Ok_0.value_type->0) is Ok
        }),
    ensures
        ({
            let (lr, f1, o1) = node_outcome(facts, symbols, o, resolution, context, left, None);
            let (rr, f2, o2) = node_outcome(f1, symbols, o1, resolution, context, right, None);
            let lt = lr->Ok_0.value_type->0;
            let rt = rr->Ok_0.value_type->0;
            let la = crate::apparent::apparent_outcome(f2, symbols, lt)->Ok_0;
            let ra = crate::apparent::apparent_outcome(f2, symbols, rt)->Ok_0;
            let fits = match op {
                BinaryOperator::Eq | BinaryOperator::Ne => la == ra
                    && crate::apparent::equality_type(f2, la),
                BinaryOperator::And | BinaryOperator::Or | BinaryOperator::Xor => crate::operators::is_bool(f2, la)
                    && crate::operators::is_bool(f2, ra),
                _ => la == ra && crate::apparent::ordered_type(f2, la),
            };
            let outcome = binary_outcome(facts, symbols, o, resolution, context, op, left, right);
            let (types, id) = intern_spec(f2.types, CheckedTypeView::Builtin(BuiltinType::Bool));
            &&& fits ==> outcome == (
                Ok::<TypedExpr, TypecheckErrorView>(value_of(CheckedTypeId(id as usize))),
                FactsView { types, ..f2 },
                o2,
            )
            &&& !fits ==> outcome == (
                Err::<TypedExpr, TypecheckErrorView>(
                    crate::operators::invalid_operator_error(f2, op, lt, rt),
                ),
                f2,
                o2,
            )
        }),
{
    let (lr, f1, o1) = node_outcome(facts, symbols, o, resolution, context, left, None);
    let (rr, f2, o2) = node_outcome(f1, symbols, o1, resolution, context, right, None);
    let lt = lr->Ok_0.value_type->0;
    let rt = rr->Ok_0.value_type->0;
    crate::operators::law_comparisons_give_bool(
        f2,
        symbols,
        context,
        op,
        lr->Ok_0,
        rr->Ok_0,
        origin_view(node_origin_at(resolution, left)),
        origin_view(node_origin_at(resolution, right)),
        lt,
        rt,
        crate::apparent::apparent_outcome(f2, symbols, lt)->Ok_0,
        crate::apparent::apparent_outcome(f2, symbols, rt)->Ok_0,
    );
}

/// `node` without the comments attached to it.
pub(crate) fn stripped_expr<'a, 'b>(node: &'b Expr<'a>) -> (r: &'b Expr<'a>)
    ensures
        *r == stripped(*node),
    decreases node,
{
    match node {
        Expr::Commented(inner) => stripped_expr(inner),
        _ => node,
    }
}

/// Hands on the value of `node`, of type `actual`.
pub(crate) fn transfer_operand(
    typed: &mut TypedProgram,
    resolution: &Resolution,
    context: TypeContext,
    node: &Expr,
    actual: CheckedTypeId,
) -> (r: Result<(), TypecheckError>)
    requires
        loop_walks_end(resolution, context.repeating_loop_scope),
    ensures
        transfer_done(
            old(typed),
            final(typed),
            r,
            expr_transfer(
                old(typed).facts(),
                old(typed).symbol_facts(),
                resolution,
                context.repeating_loop_scope,
                *node,
                actual,
            ),
        ),
{
    match stripped_expr(node) {
        Expr::Identifier { name, syntax_id: Some(id) } => track_identifier_transfer(
            typed,
            resolution,
            context,
            node_origin(resolution, node),
            *id,
            name,
            actual,
        ),
        _ => Ok(()),
    }
}

/// The diagnostic for `op` on an operand of type `operand`.
fn invalid_unary(typed: &TypedProgram, op: UnaryOperator, operand: CheckedTypeId) -> (r: TypecheckError)
    requires
        acyclic(typed.facts().types),
    ensures
        r@ == invalid_unary_error(typed.facts(), op, operand),
{
    let mut message = crate::text::owned("unary operator '");
    crate::text::push_text(&mut message, unary_text(op));
    crate::text::push_text(&mut message, "' is not valid for '");
    let described = crate::apparent::describe_type(typed, operand);
    crate::text::push_text(&mut message, described.as_str());
    crate::text::push_text(&mut message, "'");
    TypecheckError::new(TypecheckErrorKind::InvalidInput, message.as_str())
}

/// Unwraps the expression `operand`, the operand of the unwrap at `at`.
fn type_unwrap(
    typed: &mut TypedProgram,
    resolution: &Resolution,
    context: TypeContext,
    operand: &Expr,
    at: Option<SyntaxOrigin>,
) -> (r: Result<TypedExpr, TypecheckError>)
    requires
        walk_ready(old(typed).facts(), old(typed).symbol_facts()),
        loop_walks_end(resolution, context.repeating_loop_scope),
    ensures
        (result_view(r), final(typed).facts(), final(typed).ownership()) == unwrap_outcome(
            old(typed).facts(),
            old(typed).symbol_facts(),
            resolution,
            context,
            *operand,
            at,
            node_outcome(
                old(typed).facts(),
                old(typed).symbol_facts(),
                old(typed).ownership(),
                resolution,
                observed(context),
                *operand,
                None,
            ),
        ),
        walk_ready(final(typed).facts(), final(typed).symbol_facts()),
        extends(old(typed).facts(), final(typed).facts()),
        final(typed).symbol_facts() == old(typed).symbol_facts(),
        value_stored(result_view(r), final(typed).facts()),
    decreases *operand, 2nat,
{
    let observing = TypeContext { error_call_mode: ErrorCallMode::Observe, ..context };
    let raw = match type_node_with_expectation(typed, resolution, observing, operand, None) {
        Ok(e) => e,
        Err(e) => {
            return Err(e);
        },
    };
    if raw.recoverable_effect.is_some() {
        return Err(
            TypecheckError::at(
                TypecheckErrorKind::Unsupported,
                "postfix '!' unwrap applies to opt[...] and err[...] shell values, not to routine call results with '/ ErrorType' in V1",
                at,
            ),
        );
    }
    let operand_type = match raw.required_value("unary operator operand does not have a type") {
        Ok(t) => t,
        Err(e) => {
            return Err(e);
        },
    };
    proof {
        lemma_ready_resolves(typed.facts(), typed.symbol_facts(), operand_type);
    }
    let payload = match crate::apparent::unwrap_shell_result_type(typed, operand_type) {
        Ok(p) => p,
        Err(e) => {
            return Err(e);
        },
    };
    match payload {
        None => Err(
            TypecheckError::at(
                TypecheckErrorKind::InvalidInput,
                "unwrap requires an opt[...] or err[...] shell with a value type in V1",
                at,
            ),
        ),
        Some(inner) => {
            proof {
                let a = crate::apparent::apparent_outcome(typed.facts(), typed.symbol_facts(), operand_type)->Ok_0;
                lemma_part_stored(typed.facts(), a, inner);
            }
            match transfer_operand(typed, resolution, context, operand, operand_type) {
                Ok(()) => Ok(TypedExpr { value_type: Some(inner), recoverable_effect: None }),
                Err(e) => Err(e),
            }
        },
    }
}

/// Gives back early the loan held by the borrow binding `operand`, within
/// the give-back at `at`.
fn give_back(
    typed: &mut TypedProgram,
    resolution: &Resolution,
    context: TypeContext,
    operand: &Expr,
    at: Option<SyntaxOrigin>,
) -> (r: Result<TypedExpr, TypecheckError>)
    ensures
        (result_view(r), final(typed).facts(), final(typed).ownership()) == give_back_outcome(
            old(typed).facts(),
            old(typed).symbol_facts(),
            old(typed).ownership(),
            resolution,
            context,
            *operand,
            at,
        ),
        final(typed).facts() == old(typed).facts(),
        final(typed).symbol_facts() == old(typed).symbol_facts(),
{
    let (name, id) = match operand {
        Expr::Identifier { name, syntax_id: Some(id) } => (*name, *id),
        _ => {
            return Err(
                TypecheckError::at(
                    TypecheckErrorKind::InvalidInput,
                    "give-back requires a borrow binding identifier",
                    at,
                ),
            );
        },
    };
    let binding = match crate::resolution::resolve_use(
        resolution,
        id,
        crate::resolution::ReferenceKind::Identifier,
    ) {
        Some(b) => b,
        None => {
            let mut message = crate::text::owned("give-back target '");
            crate::text::push_text(&mut message, name);
            crate::text::push_text(&mut message, "' does not resolve to a borrow binding");
            return Err(TypecheckError::at(TypecheckErrorKind::InvalidInput, message.as_str(), at));
        },
    };
    let origin = match at {
        Some(o) => o,
        None => {
            return Err(
                TypecheckError::new(
                    TypecheckErrorKind::Internal,
                    "give-back expression lost its syntax origin",
                ),
            );
        },
    };
    match typed.first_deferred_binding_use(binding) {
        Some(deferred) => {
            let mut message = crate::text::owned("borrow '");
            crate::text::push_text(&mut message, name);
            crate::text::push_text(
                &mut message,
                "' is captured by a deferred (dfr/edf) block and cannot be given back early; its loan lives until the block runs at scope exit",
            );
            return Err(
                TypecheckError::with_origin(
                    TypecheckErrorKind::BorrowReturned,
                    message.as_str(),
                    origin,
                ).with_related_origin(deferred.origin.copy(), "borrow captured by deferred block here"),
            );
        },
        None => {},
    }
    let guard = match typed.typed_symbol(binding) {
        Some(s) => s.is_mutex_guard,
        None => false,
    };
    let owner = match typed.active_borrow_binding(binding) {
        Some(b) => Some(b.owner),
        None => None,
    };
    let origin_copy = origin.copy();
    if !typed.give_back_borrow(binding, origin) {
        let mut message = crate::text::owned("'");
        crate::text::push_text(&mut message, name);
        crate::text::push_text(&mut message, "' is not an active borrow binding");
        return Err(
            TypecheckError::with_origin(TypecheckErrorKind::BorrowReturned, message.as_str(), origin_copy),
        );
    }
    if guard {
        match owner {
            Some(mutex) => {
                let _ = typed.release_mutex_guard(mutex, context.scope_id);
            },
            None => {},
        }
    }
    Ok(TypedExpr::none())
}

/// A shared loan `#owner` of the binding `operand` is rooted in, within the
/// loan at `at`.
fn borrow_from(typed: &mut TypedProgram, resolution: &Resolution, operand: &Expr, at: Option<SyntaxOrigin>) -> (r:
    Result<TypedExpr, TypecheckError>)
    requires
        walk_ready(old(typed).facts(), old(typed).symbol_facts()),
    ensures
        (result_view(r), final(typed).facts(), final(typed).ownership()) == borrow_from_outcome(
            old(typed).facts(),
            old(typed).symbol_facts(),
            old(typed).ownership(),
            resolution,
            *operand,
            at,
        ),
        walk_ready(final(typed).facts(), final(typed).symbol_facts()),
        extends(old(typed).facts(), final(typed).facts()),
        final(typed).symbol_facts() == old(typed).symbol_facts(),
        value_stored(result_view(r), final(typed).facts()),
{
    let owner = match find_borrow_source(resolution, operand) {
        Some(s) => s,
        None => {
            return Err(
                TypecheckError::at(
                    TypecheckErrorKind::InvalidInput,
                    "borrow-from requires an identifier owner",
                    at,
                ),
            );
        },
    };
    match typed.moved_binding_origin(owner) {
        Some(moved) => {
            return Err(
                TypecheckError::at(
                    TypecheckErrorKind::Ownership,
                    "cannot borrow from an owner whose value was already moved",
                    at,
                ).with_related_origin(moved.copy(), "ownership moved here"),
            );
        },
        None => {},
    }
    match typed.active_borrow_for_owner(owner) {
        Some(conflict) => {
            if conflict.mutable {
                return Err(
                    TypecheckError::at(
                        TypecheckErrorKind::BorrowConflict,
                        "shared borrow conflicts with an active mutable borrow of the same owner",
                        at,
                    ).with_related_origin(conflict.origin.copy(), "mutable borrow created here"),
                );
            }
        },
        None => {},
    }
    let owner_type = match typed.typed_symbol(owner) {
        Some(s) => s.declared_type,
        None => None,
    };
    let owner_type = match owner_type {
        Some(t) => t,
        None => {
            return Err(
                TypecheckError::at(
                    TypecheckErrorKind::Internal,
                    "borrow-from owner lost its checked type",
                    at,
                ),
            );
        },
    };
    if at.is_none() {
        return Err(
            TypecheckError::new(TypecheckErrorKind::Internal, "borrow-from expression lost its syntax origin"),
        );
    }
    let inner = shell_inner_of(typed, owner_type);
    Ok(intern_value(typed, CheckedType::Borrowed { inner, mutable: false }))
}

/// Types the unary operator `op` applied to the expression `operand`,
/// where a value of type `expected` may be wanted, recording what it learns
/// in `typed`.
pub fn type_unary_op(
    typed: &mut TypedProgram,
    resolution: &Resolution,
    context: TypeContext,
    op: UnaryOperator,
    operand: &Expr,
    expected: Option<CheckedTypeId>,
) -> (r: Result<TypedExpr, TypecheckError>)
    requires
        walk_ready(old(typed).facts(), old(typed).symbol_facts()),
        loop_walks_end(resolution, context.repeating_loop_scope),
    ensures
        (result_view(r), final(typed).facts(), final(typed).ownership()) == unary_outcome(
            old(typed).facts(),
            old(typed).symbol_facts(),
            old(typed).ownership(),
            resolution,
            context,
            op,
            *operand,
            expected,
        ),
        walk_ready(final(typed).facts(), final(typed).symbol_facts()),
        extends(old(typed).facts(), final(typed).facts()),
        final(typed).symbol_facts() == old(typed).symbol_facts(),
        value_stored(result_view(r), final(typed).facts()),
    decreases (Expr::UnaryOp { op, operand: Box::new(*operand) }), 0nat,
{
    proof {
        let whole = Expr::UnaryOp { op, operand: Box::new(*operand) };
        assert(decreases_to!(whole => whole->UnaryOp_operand));
        assert(node_origin_at(resolution, whole) == node_origin_at(resolution, *operand));
    }
    let at = node_origin(resolution, operand);
    if op == UnaryOperator::GiveBack {
        return give_back(typed, resolution, context, operand, at);
    }
    if op == UnaryOperator::BorrowFrom {
        return borrow_from(typed, resolution, operand, at);
    }
    if op == UnaryOperator::Unwrap {
        return type_unwrap(typed, resolution, context, operand, at);
    }
    let raw = match type_node_with_expectation(typed, resolution, context, operand, None) {
        Ok(e) => e,
        Err(e) => {
            return Err(e);
        },
    };
    let value = match plain_value_expr(
        typed,
        context,
        raw,
        node_origin(resolution, operand),
        "plain use of an errorful expression",
    ) {
        Ok(e) => e,
        Err(e) => {
            return Err(e);
        },
    };
    let operand_type = match value.required_value("unary operator operand does not have a type") {
        Ok(t) => t,
        Err(e) => {
            return Err(e);
        },
    };
    proof {
        lemma_ready_resolves(typed.facts(), typed.symbol_facts(), operand_type);
    }
    let apparent = match crate::apparent::apparent_type_id(typed, operand_type) {
        Ok(t) => t,
        Err(e) => {
            return Err(e);
        },
    };
    match op {
        UnaryOperator::Ref => {
            if typed.capability_model() == TypecheckCapabilityModel::Core {
                return Err(
                    TypecheckError::at(
                        TypecheckErrorKind::Unsupported,
                        "pointer construction requires heap support; choose fol_model = 'memo'",
                        at,
                    ),
                );
            }
            match transfer_operand(typed, resolution, context, operand, operand_type) {
                Ok(()) => {},
                Err(e) => {
                    return Err(e);
                },
            }
            let (shared, sync) = match expected {
                Some(e) => match typed.type_table().get(e) {
                    Some(CheckedType::Pointer { shared, sync, .. }) => (*shared, *sync),
                    _ => (false, false),
                },
                None => (false, false),
            };
            let pointer = CheckedType::Pointer {
                target: operand_type,
                shared,
                weak: false,
                sync,
                raw: false,
                mutable: false,
            };
            proof {
                lemma_intern_keeps_ready(typed.facts(), typed.symbol_facts(), pointer@);
            }
            let id = typed.intern_type(pointer);
            Ok(TypedExpr { value_type: Some(id), recoverable_effect: None })
        },
        UnaryOperator::Deref => {
            let found = match typed.type_table().get(apparent) {
                Some(CheckedType::Pointer { target, shared, weak, .. }) => Some((*target, *shared, *weak)),
                _ => None,
            };
            let (target, shared, weak) = match found {
                Some(p) => p,
                None => {
                    return Err(invalid_unary(typed, op, operand_type));
                },
            };
            proof {
                lemma_part_stored(typed.facts(), apparent, target);
            }
            if weak {
                return Err(
                    TypecheckError::at(
                        TypecheckErrorKind::Ownership,
                        "a weak pointer 'ptr[weak, T]' cannot be dereferenced directly; upgrade it with '[upg]' to 'opt[ptr[shared, T]]' first",
                        node_origin(resolution, operand),
                    ),
                );
            }
            if crate::shapes::ownership_moves_on_transfer(typed, target) {
                let through_loan = match typed.type_table().get(operand_type) {
                    Some(CheckedType::Borrowed { .. }) => true,
                    _ => false,
                };
                if through_loan {
                    return Err(
                        TypecheckError::at(
                            TypecheckErrorKind::Ownership,
                            "cannot move a move-only pointee through a borrowed pointer; borrowed pointer dereference is read-only",
                            at,
                        ),
                    );
                }
                if shared {
                    return Err(
                        TypecheckError::at(
                            TypecheckErrorKind::Ownership,
                            "cannot move a move-only pointee out of ptr[shared, T]; shared pointer dereference is read-only and requires a clone-safe pointee",
                            at,
                        ),
                    );
                }
                match transfer_operand(typed, resolution, context, operand, operand_type) {
                    Ok(()) => {},
                    Err(e) => {
                        return Err(e);
                    },
                }
            }
            Ok(TypedExpr { value_type: Some(target), recoverable_effect: None })
        },
        _ => {
            let kind = match typed.type_table().get(apparent) {
                Some(CheckedType::Builtin(b)) => Some(*b),
                _ => None,
            };
            let shape = match op {
                UnaryOperator::Neg => match kind {
                    Some(BuiltinType::Int(_)) => Some(BuiltinType::Int(IntWidth::DEFAULT)),
                    Some(BuiltinType::Float(_)) => Some(BuiltinType::Float(FloatWidth::DEFAULT)),
                    _ => None,
                },
                UnaryOperator::Not => match kind {
                    Some(BuiltinType::Bool) => Some(BuiltinType::Bool),
                    _ => None,
                },
                _ => None,
            };
            match shape {
                Some(b) => {
                    proof {
                        lemma_intern_keeps_ready(
                            typed.facts(),
                            typed.symbol_facts(),
                            CheckedTypeView::Builtin(b),
                        );
                    }
                    let id = typed.intern_type(CheckedType::Builtin(b));
                    Ok(TypedExpr { value_type: Some(id), recoverable_effect: value.recoverable_effect })
                },
                None => Err(invalid_unary(typed, op, operand_type)),
            }
        },
    }
}


/// Whether `options` holds `x`.
pub(crate) fn has_option(options: &Vec<OwnershipOption>, x: OwnershipOption) -> (r: bool)
    ensures
        r == options@.contains(x),
{
    let mut i: usize = 0;
    while i < options.len()
        invariant
            i <= options@.len(),
            forall|j: int| 0 <= j < i ==> options@[j] != x,
        decreases options@.len() - i,
    {
        if options[i] == x {
            return true;
        }
        i = i + 1;
    }
    false
}

/// The syntax node of the binding a place expression is rooted in.
pub(crate) fn root_identifier_of(node: &Expr) -> (r: Option<SyntaxNodeId>)
    ensures
        r == root_identifier(*node),
    decreases node,
{
    match node {
        Expr::Identifier { syntax_id: Some(id), .. } => Some(*id),
        Expr::Commented(inner) => root_identifier_of(inner),
        _ => None,
    }
}

/// The owner a loan of `operand` borrows from.
pub(crate) fn find_borrow_source(resolution: &Resolution, operand: &Expr) -> (r: Option<SymbolId>)
    ensures
        r == borrow_source(resolution, *operand),
{
    let place = match operand {
        Expr::OwnershipOp { options, operand: inner } => if has_option(options, OwnershipOption::Borrow) {
            &**inner
        } else {
            operand
        },
        Expr::UnaryOp { op: UnaryOperator::BorrowFrom, operand: inner } => &**inner,
        _ => operand,
    };
    match root_identifier_of(place) {
        Some(id) => crate::resolution::resolve_use(resolution, id, crate::resolution::ReferenceKind::Identifier),
        None => None,
    }
}

/// Whether `operand` is a name bound to a mutex guard value.
fn is_guard_operand(typed: &TypedProgram, resolution: &Resolution, operand: &Expr) -> (r: bool)
    ensures
        r == names_guard(typed.symbol_facts(), resolution, *operand),
{
    match stripped_expr(operand) {
        Expr::Identifier { syntax_id: Some(id), .. } => match crate::resolution::resolve_use(
            resolution,
            *id,
            crate::resolution::ReferenceKind::Identifier,
        ) {
            Some(s) => match typed.typed_symbol(s) {
                Some(sym) => sym.is_mutex_guard,
                None => false,
            },
            None => false,
        },
        _ => false,
    }
}

/// The type of the typed operand `e`, checked for `usage`.
fn operand_type_for(
    typed: &TypedProgram,
    resolution: &Resolution,
    context: TypeContext,
    operand: &Expr,
    e: TypedExpr,
    usage: &str,
    untyped: &str,
) -> (r: Result<CheckedTypeId, TypecheckError>)
    ensures
        result_view(r) == typed_operand(context, resolution, *operand, e, usage@, untyped@),
{
    let plain = match plain_value_expr(typed, context, e, node_origin(resolution, operand), usage) {
        Ok(v) => v,
        Err(x) => {
            return Err(x);
        },
    };
    plain.required_value(untyped)
}

/// Interns `t`, whose parts are stored, as the value of an expression.
fn intern_value(typed: &mut TypedProgram, t: CheckedType) -> (r: TypedExpr)
    requires
        walk_ready(old(typed).facts(), old(typed).symbol_facts()),
        !(t@ is Declared),
        forall|c: CheckedTypeId| #[trigger] renders_into(t@, c) ==> c.0 < old(typed).facts().types.len(),
    ensures
        (Ok::<TypedExpr, TypecheckErrorView>(r), final(typed).facts(), final(typed).ownership())
            == interned_outcome(old(typed).facts(), old(typed).ownership(), t@),
        walk_ready(final(typed).facts(), final(typed).symbol_facts()),
        extends(old(typed).facts(), final(typed).facts()),
        final(typed).symbol_facts() == old(typed).symbol_facts(),
        value_stored(Ok(r), final(typed).facts()),
{
    proof {
        lemma_intern_keeps_ready(typed.facts(), typed.symbol_facts(), t@);
    }
    let id = typed.intern_type(t);
    TypedExpr { value_type: Some(id), recoverable_effect: None }
}

/// The type an owned or borrowed shell of type `t` holds, else `t`.
fn shell_inner_of(typed: &TypedProgram, t: CheckedTypeId) -> (r: CheckedTypeId)
    requires
        references_stored(typed.facts().types),
        t.0 < typed.facts().types.len(),
    ensures
        r == shell_inner(typed.facts(), t),
        r.0 < typed.facts().types.len(),
{
    let r = crate::rejections::owned_or_borrowed_inner(typed, t);
    proof {
        if r != t {
            lemma_part_stored(typed.facts(), t, r);
        }
    }
    r
}

/// Types an ownership operation with `options` on `operand`, recording what
/// it learns and what it moves in `typed`.
pub fn type_ownership_op(
    typed: &mut TypedProgram,
    resolution: &Resolution,
    context: TypeContext,
    options: &Vec<OwnershipOption>,
    operand: &Expr,
) -> (r: Result<TypedExpr, TypecheckError>)
    requires
        walk_ready(old(typed).facts(), old(typed).symbol_facts()),
        loop_walks_end(resolution, context.repeating_loop_scope),
    ensures
        (result_view(r), final(typed).facts(), final(typed).ownership()) == ownership_op_outcome(
            old(typed).facts(),
            old(typed).symbol_facts(),
            old(typed).ownership(),
            resolution,
            context,
            *options,
            *operand,
        ),
        walk_ready(final(typed).facts(), final(typed).symbol_facts()),
        extends(old(typed).facts(), final(typed).facts()),
        final(typed).symbol_facts() == old(typed).symbol_facts(),
        value_stored(result_view(r), final(typed).facts()),
    decreases (Expr::OwnershipOp { options: *options, operand: Box::new(*operand) }), 0nat,
{
    proof {
        let whole = Expr::OwnershipOp { options: *options, operand: Box::new(*operand) };
        assert(decreases_to!(whole => whole->OwnershipOp_operand));
    }
    let borrow = has_option(options, OwnershipOption::Borrow);
    let mutable = has_option(options, OwnershipOption::Mutable);
    let mov = has_option(options, OwnershipOption::Move);
    let copy = has_option(options, OwnershipOption::Copy);
    let clone = has_option(options, OwnershipOption::Clone);
    let weak = has_option(options, OwnershipOption::Weak);
    let upgrade = has_option(options, OwnershipOption::Upgrade);
    let finalize = has_option(options, OwnershipOption::Finalize);
    let new = has_option(options, OwnershipOption::New);
    let at = node_origin(resolution, operand);
    let mut sources: u8 = 0;
    if mov {
        sources = sources + 1;
    }
    if copy {
        sources = sources + 1;
    }
    if clone {
        sources = sources + 1;
    }
    if borrow {
        sources = sources + 1;
    }
    if weak {
        sources = sources + 1;
    }
    if upgrade {
        sources = sources + 1;
    }
    if finalize {
        sources = sources + 1;
    }
    assert(sources == source_count(options@));
    if borrow && sources > 1 {
        return Err(
            TypecheckError::at(
                TypecheckErrorKind::InvalidInput,
                "'[bor]' cannot be combined with another source operation; use '[bor]' or '[mut, bor]'",
                at,
            ),
        );
    }
    if !borrow && mutable {
        return Err(
            TypecheckError::at(
                TypecheckErrorKind::InvalidInput,
                "'[mut]' is only valid combined with '[bor]' as '[mut, bor]'",
                at,
            ),
        );
    }
    if !borrow && sources != 1 {
        return Err(
            TypecheckError::at(
                TypecheckErrorKind::InvalidInput,
                "an ownership operation needs exactly one source: '[mov]', '[cpy]', '[cln]', '[bor]', '[weak]', '[upg]', or '[fin]'",
                at,
            ),
        );
    }
    if (mov || copy || clone) && is_guard_operand(typed, resolution, operand) {
        let mut message = crate::text::owned(
            "a mutex guard cannot be moved, copied, or cloned as a whole; read its fields (e.g. 'guard.value') instead of '",
        );
        crate::text::push_text(
            &mut message,
            if mov {
                "[mov]"
            } else if copy {
                "[cpy]"
            } else {
                "[cln]"
            },
        );
        crate::text::push_text(&mut message, "guard'");
        return Err(TypecheckError::at(TypecheckErrorKind::Ownership, message.as_str(), at));
    }
    if weak || upgrade {
        return type_managed_op(typed, resolution, context, weak, operand, at);
    }
    if borrow {
        return type_borrow_op(typed, resolution, context, mutable, operand, at);
    }
    type_value_source_op(typed, resolution, context, mov, finalize, new, operand, at)
}

/// `[weak]` (when `weak`) or `[upg]` on `operand`, written at `at`.
fn type_managed_op(
    typed: &mut TypedProgram,
    resolution: &Resolution,
    context: TypeContext,
    weak: bool,
    operand: &Expr,
    at: Option<SyntaxOrigin>,
) -> (r: Result<TypedExpr, TypecheckError>)
    requires
        walk_ready(old(typed).facts(), old(typed).symbol_facts()),
        loop_walks_end(resolution, context.repeating_loop_scope),
        at == node_origin_at(resolution, *operand),
    ensures
        (result_view(r), final(typed).facts(), final(typed).ownership()) == managed_pointer_outcome(
            old(typed).symbol_facts(),
            resolution,
            context,
            weak,
            *operand,
            at,
            node_outcome(
                old(typed).facts(),
                old(typed).symbol_facts(),
                old(typed).ownership(),
                resolution,
                context,
                *operand,
                None,
            ),
        ),
        walk_ready(final(typed).facts(), final(typed).symbol_facts()),
        extends(old(typed).facts(), final(typed).facts()),
        final(typed).symbol_facts() == old(typed).symbol_facts(),
        value_stored(result_view(r), final(typed).facts()),
    decreases *operand, 2nat,
{
        let raw = match type_node_with_expectation(typed, resolution, context, operand, None) {
            Ok(e) => e,
            Err(e) => {
                return Err(e);
            },
        };
        let t = match operand_type_for(
            typed,
            resolution,
            context,
            operand,
            raw,
            "operand of a managed pointer operation",
            "managed pointer operation operand does not have a type",
        ) {
            Ok(t) => t,
            Err(e) => {
                return Err(e);
            },
        };
        proof {
            lemma_ready_resolves(typed.facts(), typed.symbol_facts(), t);
        }
        let apparent = match crate::apparent::apparent_type_id(typed, t) {
            Ok(a) => a,
            Err(e) => {
                return Err(e);
            },
        };
        let found = match typed.type_table().get(apparent) {
            Some(CheckedType::Pointer { target, shared, weak, sync, raw, mutable }) => Some(
                (*target, *shared, *weak, *sync, *raw, *mutable),
            ),
            _ => None,
        };
        let refusal = if weak {
            "'[weak]' requires a 'ptr[shared, T]' operand to downgrade"
        } else {
            "'[upg]' requires a 'ptr[weak, T]' operand to upgrade"
        };
        let (target, shared, is_weak, sync, raw_flag, mutable_ptr) = match found {
            Some(p) => p,
            None => {
                return Err(TypecheckError::at(TypecheckErrorKind::InvalidInput, refusal, at));
            },
        };
        proof {
            lemma_part_stored(typed.facts(), apparent, target);
        }
        if weak {
            if shared && !is_weak {
                return Ok(
                    intern_value(
                        typed,
                        CheckedType::Pointer {
                            target,
                            shared: false,
                            weak: true,
                            sync,
                            raw: raw_flag,
                            mutable: mutable_ptr,
                        },
                    ),
                );
            }
            return Err(TypecheckError::at(TypecheckErrorKind::InvalidInput, refusal, at));
        }
        if !is_weak {
            return Err(TypecheckError::at(TypecheckErrorKind::InvalidInput, refusal, at));
        }
        let strong = intern_value(
            typed,
            CheckedType::Pointer { target, shared: true, weak: false, sync, raw: raw_flag, mutable: mutable_ptr },
        );
        let strong_id = strong.value_type.unwrap();
        Ok(intern_value(typed, CheckedType::Optional { inner: strong_id }))
    }

/// A loan, mutable when `mutable`, of `operand`, written at `at`.
fn type_borrow_op(
    typed: &mut TypedProgram,
    resolution: &Resolution,
    context: TypeContext,
    mutable: bool,
    operand: &Expr,
    at: Option<SyntaxOrigin>,
) -> (r: Result<TypedExpr, TypecheckError>)
    requires
        walk_ready(old(typed).facts(), old(typed).symbol_facts()),
        loop_walks_end(resolution, context.repeating_loop_scope),
        at == node_origin_at(resolution, *operand),
    ensures
        (result_view(r), final(typed).facts(), final(typed).ownership()) == borrow_op_outcome(
            old(typed).facts(),
            old(typed).symbol_facts(),
            old(typed).ownership(),
            resolution,
            context,
            mutable,
            *operand,
            node_outcome(
                old(typed).facts(),
                old(typed).symbol_facts(),
                old(typed).ownership(),
                resolution,
                context,
                *operand,
                None,
            ),
        ),
        walk_ready(final(typed).facts(), final(typed).symbol_facts()),
        extends(old(typed).facts(), final(typed).facts()),
        final(typed).symbol_facts() == old(typed).symbol_facts(),
        value_stored(result_view(r), final(typed).facts()),
    decreases *operand, 2nat,
{
        match find_borrow_source(resolution, operand) {
            None => {
                let raw = match type_node_with_expectation(typed, resolution, context, operand, None) {
                    Ok(e) => e,
                    Err(e) => {
                        return Err(e);
                    },
                };
                let t = match operand_type_for(
                    typed,
                    resolution,
                    context,
                    operand,
                    raw,
                    "operand of a borrow operation",
                    "borrow operation operand does not have a type",
                ) {
                    Ok(t) => t,
                    Err(e) => {
                        return Err(e);
                    },
                };
                let inner = shell_inner_of(typed, t);
                return Ok(intern_value(typed, CheckedType::Borrowed { inner, mutable }));
            },
            Some(owner) => {
                let origin = match &at {
                    Some(o) => o.copy(),
                    None => {
                        return Err(
                            TypecheckError::new(
                                TypecheckErrorKind::Internal,
                                "borrow operation lost its syntax origin",
                            ),
                        );
                    },
                };
                let owner_type = match check_loan(typed, owner, mutable, &origin, &at) {
                    Ok(t) => t,
                    Err(e) => {
                        return Err(e);
                    },
                };
                let raw = match type_node_with_expectation(typed, resolution, context, operand, None) {
                    Ok(e) => e,
                    Err(e) => {
                        return Err(e);
                    },
                };
                let is_name = match stripped_expr(operand) {
                    Expr::Identifier { .. } => true,
                    _ => false,
                };
                if is_name {
                    let inner = shell_inner_of(typed, owner_type);
                    return Ok(intern_value(typed, CheckedType::Borrowed { inner, mutable }));
                }
                let t = match operand_type_for(
                    typed,
                    resolution,
                    context,
                    operand,
                    raw,
                    "operand of a borrow operation",
                    "borrow operation operand does not have a type",
                ) {
                    Ok(t) => t,
                    Err(e) => {
                        return Err(e);
                    },
                };
                return Ok(intern_value(typed, CheckedType::Borrowed { inner: t, mutable }));
            },
        }
    }

/// A value-source operation on `operand`, written at `at`.
fn type_value_source_op(
    typed: &mut TypedProgram,
    resolution: &Resolution,
    context: TypeContext,
    mov: bool,
    finalize: bool,
    new: bool,
    operand: &Expr,
    at: Option<SyntaxOrigin>,
) -> (r: Result<TypedExpr, TypecheckError>)
    requires
        walk_ready(old(typed).facts(), old(typed).symbol_facts()),
        loop_walks_end(resolution, context.repeating_loop_scope),
        at == node_origin_at(resolution, *operand),
    ensures
        (result_view(r), final(typed).facts(), final(typed).ownership()) == value_source_outcome(
            old(typed).symbol_facts(),
            resolution,
            context,
            mov,
            finalize,
            new,
            *operand,
            node_outcome(
                old(typed).facts(),
                old(typed).symbol_facts(),
                old(typed).ownership(),
                resolution,
                context,
                *operand,
                None,
            ),
        ),
        walk_ready(final(typed).facts(), final(typed).symbol_facts()),
        extends(old(typed).facts(), final(typed).facts()),
        final(typed).symbol_facts() == old(typed).symbol_facts(),
        value_stored(result_view(r), final(typed).facts()),
    decreases *operand, 2nat,
{
    let raw = match type_node_with_expectation(typed, resolution, context, operand, None) {
        Ok(e) => e,
        Err(e) => {
            return Err(e);
        },
    };
    let t = match operand_type_for(
        typed,
        resolution,
        context,
        operand,
        raw,
        "operand of an ownership operation",
        "ownership operation operand does not have a type",
    ) {
        Ok(t) => t,
        Err(e) => {
            return Err(e);
        },
    };
    if new && typed.capability_model() == TypecheckCapabilityModel::Core {
        return Err(
            TypecheckError::at(
                TypecheckErrorKind::Unsupported,
                "heap allocation requires heap support; choose fol_model = 'memo'",
                at,
            ),
        );
    }
    if mov || finalize {
        match transfer_operand(typed, resolution, context, operand, t) {
            Ok(()) => {},
            Err(e) => {
                return Err(e);
            },
        }
    }
    if mov {
        match stripped_expr(operand) {
            Expr::Identifier { syntax_id: Some(id), .. } => {
                match (
                    crate::resolution::resolve_use(
                        resolution,
                        *id,
                        crate::resolution::ReferenceKind::Identifier,
                    ),
                    node_origin(resolution, operand),
                ) {
                    (Some(owner), Some(origin)) => typed.mark_binding_moved(owner, origin),
                    _ => {},
                }
            },
            _ => {},
        }
    }
    if finalize {
        return Ok(TypedExpr::none());
    }
    if new {
        let inner = shell_inner_of(typed, t);
        return Ok(intern_value(typed, CheckedType::Owned { inner }));
    }
    Ok(TypedExpr { value_type: Some(t), recoverable_effect: None })
}

/// Whether a loan of `owner` may be taken now, seen at `origin`: the
/// owner's type, or the refusal.
fn check_loan(
    typed: &TypedProgram,
    owner: SymbolId,
    mutable: bool,
    origin: &SyntaxOrigin,
    at: &Option<SyntaxOrigin>,
) -> (r: Result<CheckedTypeId, TypecheckError>)
    ensures
        result_view(r) == loan_check(typed.symbol_facts(), typed.ownership(), owner, mutable, origin@, *at),
{
    match typed.moved_binding_origin(owner) {
        Some(moved) => {
            return Err(
                TypecheckError::with_origin(
                    TypecheckErrorKind::Ownership,
                    "cannot borrow from an owner whose value was already moved",
                    origin.copy(),
                ).with_related_origin(moved.copy(), "ownership moved here"),
            );
        },
        None => {},
    }
    match typed.active_borrow_for_owner(owner) {
        Some(conflict) => {
            if conflict.mutable || mutable {
                return Err(
                    TypecheckError::with_origin(
                        TypecheckErrorKind::BorrowConflict,
                        "borrow conflicts with an active borrow of the same owner",
                        origin.copy(),
                    ).with_related_origin(conflict.origin.copy(), "conflicting borrow created here"),
                );
            }
        },
        None => {},
    }
    let known = typed.typed_symbol(owner);
    let owner_mutable = match known {
        Some(s) => s.is_mutable,
        None => false,
    };
    if mutable && !owner_mutable {
        return Err(
            TypecheckError::with_origin(
                TypecheckErrorKind::BorrowMutability,
                "mutable borrow requires an owner declared with 'var[mut]'",
                origin.copy(),
            ),
        );
    }
    match known {
        Some(s) => match s.declared_type {
            Some(t) => Ok(t),
            None => Err(
                TypecheckError::at(
                    TypecheckErrorKind::Internal,
                    "borrow operation owner lost its checked type",
                    crate::ids::copy_origin(at),
                ),
            ),
        },
        None => Err(
            TypecheckError::at(
                TypecheckErrorKind::Internal,
                "borrow operation owner lost its checked type",
                crate::ids::copy_origin(at),
            ),
        ),
    }
}
/// A unary operator leaves the loan each borrowing binding last took as
/// typing its operand does.
proof fn lemma_unary_keeps_borrow_history(
    facts: FactsView,
    symbols: Map<SymbolId, TypedSymbol>,
    o: OwnershipView,
    resolution: &Resolution,
    context: TypeContext,
    op: UnaryOperator,
    operand: Expr,
    expected: Option<CheckedTypeId>,
)
    requires
        node_outcome(facts, symbols, o, resolution, observed(context), operand, None).2.borrow_history
            == o.borrow_history,
        node_outcome(facts, symbols, o, resolution, context, operand, None).2.borrow_history == o.borrow_history,
    ensures
        unary_outcome(facts, symbols, o, resolution, context, op, operand, expected).2.borrow_history
            == o.borrow_history,
{
}

/// An ownership operation leaves the loan each borrowing binding last took
/// as typing its operand does.
proof fn lemma_ownership_op_keeps_borrow_history(
    facts: FactsView,
    symbols: Map<SymbolId, TypedSymbol>,
    o: OwnershipView,
    resolution: &Resolution,
    context: TypeContext,
    options: Vec<OwnershipOption>,
    operand: Expr,
)
    requires
        node_outcome(facts, symbols, o, resolution, context, operand, None).2.borrow_history == o.borrow_history,
    ensures
        ownership_op_outcome(facts, symbols, o, resolution, context, options, operand).2.borrow_history
            == o.borrow_history,
{
}

/// A binary operator leaves the loan each borrowing binding last took as
/// typing its operands does.
proof fn lemma_binary_keeps_borrow_history(
    facts: FactsView,
    symbols: Map<SymbolId, TypedSymbol>,
    o: OwnershipView,
    resolution: &Resolution,
    context: TypeContext,
    op: BinaryOperator,
    left: Expr,
    right: Expr,
)
    requires
        node_outcome(facts, symbols, o, resolution, context, left, None).2.borrow_history == o.borrow_history,
        ({
            let (lr, f1, o1) = node_outcome(facts, symbols, o, resolution, context, left, None);
            node_outcome(f1, symbols, o1, resolution, context, right, None).2.borrow_history == o1.borrow_history
        }),
    ensures
        binary_outcome(facts, symbols, o, resolution, context, op, left, right).2.borrow_history
            == o.borrow_history,
{
}

/// Typing an expression never changes the loan each borrowing binding last
/// took.
pub proof fn lemma_walk_keeps_borrow_history(
    facts: FactsView,
    symbols: Map<SymbolId, TypedSymbol>,
    o: OwnershipView,
    resolution: &Resolution,
    context: TypeContext,
    node: Expr,
    expected: Option<CheckedTypeId>,
)
    ensures
        node_outcome(facts, symbols, o, resolution, context, node, expected).2.borrow_history == o.borrow_history,
    decreases node,
{
    match node {
        Expr::Commented(inner) => {
            lemma_walk_keeps_borrow_history(facts, symbols, o, resolution, context, *inner, expected);
        },
        Expr::UnaryOp { op, operand } => {
            lemma_walk_keeps_borrow_history(facts, symbols, o, resolution, observed(context), *operand, None);
            lemma_walk_keeps_borrow_history(facts, symbols, o, resolution, context, *operand, None);
            lemma_unary_keeps_borrow_history(facts, symbols, o, resolution, context, op, *operand, expected);
        },
        Expr::OwnershipOp { options, operand } => {
            lemma_walk_keeps_borrow_history(facts, symbols, o, resolution, context, *operand, None);
            lemma_ownership_op_keeps_borrow_history(facts, symbols, o, resolution, context, options, *operand);
        },
        Expr::BinaryOp { op, left, right } => {
            lemma_walk_keeps_borrow_history(facts, symbols, o, resolution, context, *left, None);
            let (lr, f1, o1) = node_outcome(facts, symbols, o, resolution, context, *left, None);
            lemma_walk_keeps_borrow_history(f1, symbols, o1, resolution, context, *right, None);
            lemma_binary_keeps_borrow_history(facts, symbols, o, resolution, context, op, *left, *right);
        },
        _ => {},
    }
}

/// A move `[mov]name` of a resolved bare name, written at a known position
/// and not read by a deferred block, that is accepted leaves the name's
/// binding moved.
pub proof fn law_move_leaves_the_source_moved(
    facts: FactsView,
    symbols: Map<SymbolId, TypedSymbol>,
    o: OwnershipView,
    resolution: &Resolution,
    context: TypeContext,
    options: Vec<OwnershipOption>,
    name: &str,
    id: SyntaxNodeId,
    source: SymbolId,
)
    requires
        options@ == seq![OwnershipOption::Move],
        crate::resolution::resolved_use(resolution, id, crate::resolution::ReferenceKind::Identifier) == Some(source),
        origin_at(resolution, id) is Some,
        crate::ownership::first_deferred_use(o, source) is None,
        ownership_op_outcome(
            facts,
            symbols,
            o,
            resolution,
            context,
            options,
            Expr::Identifier { name, syntax_id: Some(id) },
        ).0 is Ok,
    ensures
        ownership_op_outcome(
            facts,
            symbols,
            o,
            resolution,
            context,
            options,
            Expr::Identifier { name, syntax_id: Some(id) },
        ).2.moved_bindings.contains_key(source),
{
    let operand = Expr::Identifier { name, syntax_id: Some(id) };
    let opts = options@;
    assert(opts.contains(OwnershipOption::Move)) by {
        assert(opts[0] == OwnershipOption::Move);
    }
    assert(!opts.contains(OwnershipOption::Borrow) && !opts.contains(OwnershipOption::Mutable)
        && !opts.contains(OwnershipOption::Copy) && !opts.contains(OwnershipOption::Clone)
        && !opts.contains(OwnershipOption::Weak) && !opts.contains(OwnershipOption::Upgrade)
        && !opts.contains(OwnershipOption::Finalize) && !opts.contains(OwnershipOption::New)) by {
        assert forall|x: OwnershipOption| opts.contains(x) implies x == OwnershipOption::Move by {
            let k = choose|k: int| 0 <= k < opts.len() && opts[k] == x;
        }
    }
    assert(node_origin_at(resolution, operand) == origin_at(resolution, id));
    let typed = node_outcome(facts, symbols, o, resolution, context, operand, None);
    assert(typed.2 == o);
}

} // verus!
