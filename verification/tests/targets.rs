use lib::errors::TypecheckErrorKind;
use lib::ids::{ScopeId, SourceUnitId, SymbolId, SyntaxOrigin};
use lib::model::{TypedProgram, TypedSymbol};
use lib::resolution::{Resolution, ResolvedScope, ResolvedSymbol, SymbolKind};
use lib::sorted_map::SortedMap;
use lib::targets::{ensure_assignable_target, AssignmentTarget, ElementBase};
use lib::types::{BuiltinType, CheckedType, CheckedTypeId};
use lib::widths::IntWidth;

fn at(line: usize) -> SyntaxOrigin {
    SyntaxOrigin { file: None, line, column: 1, length: 4 }
}

const NAMES: [(usize, &str); 11] = [
    (10, "cells"),
    (11, "fixed"),
    (12, "names"),
    (13, "lookup"),
    (14, "p"),
    (15, "q"),
    (16, "self"),
    (17, "rec"),
    (18, "loan"),
    (19, "guard"),
    (20, "handles"),
];

/// One routine scope declaring every binding of `NAMES`.
fn resolution() -> Resolution {
    let mut resolved = Resolution::new();
    resolved.scopes.insert(ScopeId(1), ResolvedScope { parent: None, routine: true });
    for (id, name) in NAMES {
        resolved.symbols.insert(
            SymbolId(id),
            ResolvedSymbol {
                name: name.to_string(),
                kind: SymbolKind::ValueBinding,
                source_unit: SourceUnitId(0),
                scope: ScopeId(1),
                origin: None,
                mounted: false,
                is_mutable: false,
            },
        );
    }
    resolved
}

fn symbol(id: usize, declared_type: CheckedTypeId, mutable: bool) -> TypedSymbol {
    TypedSymbol {
        symbol_id: SymbolId(id),
        kind: SymbolKind::ValueBinding,
        scope_id: ScopeId(1),
        source_unit_id: SourceUnitId(0),
        declared_type: Some(declared_type),
        receiver_type: None,
        param_defaults: Vec::new(),
        generic_params: Vec::new(),
        generic_constraints: SortedMap::new(),
        is_mutable: mutable,
        is_mutex: false,
        is_mutex_guard: false,
        is_channel_sender_capture: false,
        channel_receiver_params: SortedMap::new(),
    }
}

fn pointer(target: CheckedTypeId, shared: bool) -> CheckedType {
    CheckedType::Pointer { target, shared, weak: false, sync: false, raw: false, mutable: true }
}

fn program() -> TypedProgram {
    let mut typed = TypedProgram::new();
    let int = typed.intern_type(CheckedType::Builtin(BuiltinType::Int(IntWidth::DEFAULT)));
    let text = typed.intern_type(CheckedType::Builtin(BuiltinType::Str));
    let vector = typed.intern_type(CheckedType::Vector { element_type: int });
    let sequence = typed.intern_type(CheckedType::Sequence { element_type: int });
    let map = typed.intern_type(CheckedType::MapOf { key_type: text, value_type: int });
    let shared = typed.intern_type(pointer(int, true));
    let unique = typed.intern_type(pointer(int, false));
    let mut fields = SortedMap::new();
    fields.insert("ram".to_string(), vector);
    let record = typed.intern_type(CheckedType::Record { fields });
    let loan = typed.intern_type(CheckedType::Borrowed { inner: vector, mutable: false });
    let owned_int = typed.intern_type(CheckedType::Owned { inner: int });
    let handles = typed.intern_type(CheckedType::Vector { element_type: owned_int });
    typed.insert_typed_symbol(symbol(10, vector, true));
    typed.insert_typed_symbol(symbol(11, vector, false));
    typed.insert_typed_symbol(symbol(12, sequence, true));
    typed.insert_typed_symbol(symbol(13, map, true));
    typed.insert_typed_symbol(symbol(14, shared, true));
    typed.insert_typed_symbol(symbol(15, unique, true));
    typed.insert_typed_symbol(symbol(16, record, false));
    typed.insert_typed_symbol(symbol(17, record, true));
    typed.insert_typed_symbol(symbol(18, loan, true));
    let mut guard = symbol(19, vector, true);
    guard.is_mutex = true;
    typed.insert_typed_symbol(guard);
    typed.insert_typed_symbol(symbol(20, handles, true));
    typed
}

fn check(target: &AssignmentTarget) -> Result<(), lib::errors::TypecheckError> {
    ensure_assignable_target(&program(), &resolution(), SourceUnitId(0), ScopeId(1), target)
}

fn element(base: ElementBase<'_>) -> AssignmentTarget<'_> {
    AssignmentTarget::Element { base, origin: Some(at(9)) }
}

#[test]
fn only_mutable_bindings_are_reassigned() {
    assert!(check(&AssignmentTarget::Name("cells")).is_ok());
    assert!(check(&AssignmentTarget::Name("unknown")).is_ok());
    let error = check(&AssignmentTarget::Name("fixed")).unwrap_err();
    assert_eq!(error.kind(), TypecheckErrorKind::InvalidInput);
    assert_eq!(error.message(), "cannot reassign immutable binding 'fixed'");
}

#[test]
fn fields_are_assigned_through_mutable_bindings_only() {
    assert!(check(&AssignmentTarget::Field { object: Some("rec"), field: "ram" }).is_ok());
    let error = check(&AssignmentTarget::Field { object: Some("fixed"), field: "x" }).unwrap_err();
    assert_eq!(
        error.message(),
        "cannot assign into field 'x' of immutable binding 'fixed'; declare the instance with 'var[mut]' to allow field assignment"
    );
    let error = check(&AssignmentTarget::Field { object: Some("self"), field: "x" }).unwrap_err();
    assert_eq!(error.kind(), TypecheckErrorKind::Unsupported);
    assert_eq!(
        error.message(),
        "cannot assign into field 'x' of the method receiver; receiver mutation is not part of the current V1 surface"
    );
    let error = check(&AssignmentTarget::Field { object: None, field: "x" }).unwrap_err();
    assert_eq!(
        error.message(),
        "nested field assignment targets like '.x' are not supported; assign into a field of a mutable binding directly"
    );
}

#[test]
fn elements_of_mutable_arrays_and_vectors_are_assigned() {
    assert!(check(&element(ElementBase::Binding("cells"))).is_ok());
    assert!(check(&element(ElementBase::FieldOf("rec", "ram"))).is_ok());
    let error = check(&element(ElementBase::Binding("fixed"))).unwrap_err();
    assert_eq!(
        error.message(),
        "cannot assign into an element of immutable binding 'fixed'; declare it with 'var[mut]' to allow element assignment"
    );
    let error = check(&element(ElementBase::Binding("guard"))).unwrap_err();
    assert_eq!(error.kind(), TypecheckErrorKind::Unsupported);
    assert_eq!(
        error.message(),
        "cannot assign into an element of 'mux[T]' binding 'guard'; lock it first and assign through the guard"
    );
    let error = check(&element(ElementBase::Binding("loan"))).unwrap_err();
    assert_eq!(error.kind(), TypecheckErrorKind::BorrowMutability);
    assert_eq!(
        error.message(),
        "cannot assign into an element through the shared loan 'loan'; a '[bor]' view is read-only"
    );
    assert_eq!(error.diagnostic_location(), Some(&at(9)));
}

#[test]
fn other_containers_refuse_element_assignment() {
    let error = check(&element(ElementBase::Binding("names"))).unwrap_err();
    assert_eq!(
        error.message(),
        "'seq[T]' is the persistent linked-list family; positional in-place writes are not part of its contract \u{2014} use 'vec[T]'"
    );
    let error = check(&element(ElementBase::Binding("lookup"))).unwrap_err();
    assert_eq!(
        error.message(),
        "map elements cannot be assigned; adding or replacing a key is container growth, which is not implemented"
    );
    let error = check(&element(ElementBase::Binding("rec"))).unwrap_err();
    assert_eq!(
        error.message(),
        "indexed assignment requires an 'arr[T,N]' or 'vec[T]' binding, but 'rec' is not one"
    );
    let error = check(&element(ElementBase::FieldOf("rec", "rom"))).unwrap_err();
    assert_eq!(error.message(), "'rec' does not expose a field named 'rom'");
    let error = check(&element(ElementBase::FieldOf("cells", "ram"))).unwrap_err();
    assert_eq!(error.message(), "indexed assignment through '.ram' requires a record binding");
    let error = check(&element(ElementBase::Binding("handles"))).unwrap_err();
    assert_eq!(error.kind(), TypecheckErrorKind::Ownership);
    assert_eq!(
        error.message(),
        "cannot replace a move-only element in place; the displaced value would be dropped without a transfer"
    );
    let error = check(&element(ElementBase::NestedField)).unwrap_err();
    assert_eq!(
        error.message(),
        "nested indexed assignment targets are not supported; index a mutable container binding, or one of its fields, directly"
    );
    let error = check(&element(ElementBase::Other)).unwrap_err();
    assert_eq!(
        error.message(),
        "nested indexed assignment targets are not supported; index a mutable container binding directly"
    );
}

#[test]
fn only_unique_pointers_are_written_through() {
    assert!(check(&AssignmentTarget::Deref { pointer: Some("q"), origin: None }).is_ok());
    let error = check(&AssignmentTarget::Deref { pointer: Some("p"), origin: Some(at(7)) }).unwrap_err();
    assert_eq!(error.message(), "cannot write through ptr[shared, T]; shared pointers are read-only");
    assert_eq!(error.diagnostic_location(), Some(&at(7)));
    let error = check(&AssignmentTarget::Deref { pointer: Some("cells"), origin: None }).unwrap_err();
    assert_eq!(error.message(), "dereference assignment requires a pointer binding");
    let error = check(&AssignmentTarget::Deref { pointer: None, origin: None }).unwrap_err();
    assert_eq!(error.message(), "dereference assignment requires a pointer binding identifier");
    let error = check(&AssignmentTarget::Other).unwrap_err();
    assert_eq!(
        error.message(),
        "assignment targets must currently be plain identifiers, qualified identifiers, a field of a mutable record binding, or a unique-pointer dereference"
    );
}
