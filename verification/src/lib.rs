//! Semantic types, type interning and rendering, type-shape queries and the
//! flow-sensitive ownership and borrow state of the FOL type checker.
use vstd::prelude::*;

pub mod apparent;
pub mod arguments;
pub mod bindings;
pub mod borrows;
pub mod call_checks;
pub mod calls;
pub mod config;
pub mod deferred;
pub mod containers;
pub mod errors;
pub mod exprs;
pub mod facts;
pub mod flows;
pub mod generics;
pub mod ids;
pub mod initializers;
pub mod linear;
pub mod model;
pub mod operators;
pub mod ownership;
pub mod processors;
pub mod records;
pub mod exits;
pub mod rejections;
pub mod resolution;
pub mod scope_rules;
pub mod references;
pub mod render;
pub mod shapes;
pub mod sorted_map;
pub mod targets;
pub mod tasks;
pub mod text;
pub mod transfers;
pub mod types;
pub mod walk;
pub mod widths;
pub mod workspace;

pub use config::{TypecheckCapabilityModel, TypecheckConfig};
pub use errors::{TypecheckError, TypecheckErrorKind};
pub use model::{
    ActiveMutexGuard, ParsedSourceUnitKind, RecordFieldLayout, RecoverableCallEffect,
    TypedConformance, TypedConformanceClaim, TypedExportMount, TypedNode, TypedProgram,
    TypedReference, TypedSourceUnit, TypedSymbol,
};
pub use types::{
    BuiltinType, CheckedType, CheckedTypeId, DeclaredTypeKind, GenericConstraint, RoutineType,
    TypeTable,
};
pub use workspace::{TypedPackage, TypedWorkspace};

verus! {

/// The outcome of a checking run: a value, or every diagnostic found.
pub type TypecheckResult<T> = Result<T, Vec<TypecheckError>>;

/// The entry point of type checking, carrying its configuration.
#[derive(Debug)]
pub struct Typechecker {
    config: TypecheckConfig,
}

impl Default for Typechecker {
    /// A checker with the default configuration.
    fn default() -> (r: Self)
        ensures
            r.spec_config() == TypecheckConfig::spec_default(),
    {
        Self::new()
    }
}

impl Typechecker {
    /// The configuration a checker holds.
    pub closed spec fn spec_config(&self) -> TypecheckConfig {
        self.config
    }

    /// A checker with the default configuration.
    pub fn new() -> (r: Self)
        ensures
            r.spec_config() == TypecheckConfig::spec_default(),
    {
        Self::with_config(TypecheckConfig::default())
    }

    /// A checker with the given configuration.
    pub fn with_config(config: TypecheckConfig) -> (r: Self)
        ensures
            r.spec_config() == config,
    {
        Self { config }
    }

    /// The configuration this checker was built with.
    pub fn config(&self) -> (r: TypecheckConfig)
        ensures
            r == self.spec_config(),
    {
        self.config
    }
}

} // verus!
