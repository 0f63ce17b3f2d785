//! Checker configuration.
use vstd::prelude::*;

verus! {

/// The capability tier a program is checked against: `Core` forbids
/// heap-backed and processor surfaces, `Std` allows everything.
#[derive(Clone, Copy, Debug, PartialEq, Eq, Structural)]
pub enum TypecheckCapabilityModel {
    Core,
    Std,
}

/// Settings for one type-checking run.
#[derive(Clone, Copy, Debug, PartialEq, Eq, Structural)]
pub struct TypecheckConfig {
    pub capability_model: TypecheckCapabilityModel,
}

impl TypecheckConfig {
    /// The default configuration: the full `Std` capability model.
    pub open spec fn spec_default() -> TypecheckConfig {
        TypecheckConfig { capability_model: TypecheckCapabilityModel::Std }
    }
}

impl Default for TypecheckConfig {
    fn default() -> (r: Self)
        ensures
            r == TypecheckConfig::spec_default(),
    {
        TypecheckConfig { capability_model: TypecheckCapabilityModel::Std }
    }
}

} // verus!
