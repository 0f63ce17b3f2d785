//! Typed packages and the workspace that holds them: every package checked
//! together, keyed by identity, with one entry package.
use crate::config::TypecheckCapabilityModel;
use crate::model::{TypedExportMount, TypedProgram};
use crate::sorted_map::{lemma_key_position, seq_key_index, seq_to_map, SortKey, SortedMap};
use crate::text::{
    lemma_name_lt_asymmetric, lemma_name_lt_irreflexive, lemma_name_lt_total,
    lemma_name_lt_transitive, name_lt, str_lt,
};
use vstd::prelude::*;

verus! {

/// Where a package comes from, as far as the checker tells sources apart.
#[derive(Clone, Copy, Debug, PartialEq, Eq, Structural)]
pub enum PackageSourceKind {
    Entry,
}

/// The identity of a package: where it comes from, its canonical root and
/// the name it is shown under.
#[derive(Debug, Clone, PartialEq, Eq)]
pub struct PackageIdentity {
    pub source_kind: PackageSourceKind,
    pub canonical_root: String,
    pub display_name: String,
}

/// The value of a `PackageIdentity`.
pub struct PackageIdentityView {
    pub source_kind: PackageSourceKind,
    pub canonical_root: Seq<char>,
    pub display_name: Seq<char>,
}

impl View for PackageIdentity {
    type V = PackageIdentityView;

    open spec fn view(&self) -> PackageIdentityView {
        PackageIdentityView {
            source_kind: self.source_kind,
            canonical_root: self.canonical_root@,
            display_name: self.display_name@,
        }
    }
}

impl PackageIdentity {
    /// An exact copy of this identity.
    pub fn copy(&self) -> (r: PackageIdentity)
        ensures
            r == *self,
    {
        PackageIdentity {
            source_kind: self.source_kind,
            canonical_root: self.canonical_root.clone(),
            display_name: self.display_name.clone(),
        }
    }
}

impl SortKey for PackageIdentity {
    /// Identities are ordered by canonical root, then by display name.
    open spec fn key_lt(a: PackageIdentityView, b: PackageIdentityView) -> bool {
        name_lt(a.canonical_root, b.canonical_root) || (a.canonical_root == b.canonical_root
            && name_lt(a.display_name, b.display_name))
    }

    proof fn lemma_key_order(a: PackageIdentityView, b: PackageIdentityView, c: PackageIdentityView) {
        lemma_name_lt_irreflexive(a.canonical_root);
        lemma_name_lt_irreflexive(a.display_name);
        lemma_name_lt_total(a.canonical_root, b.canonical_root);
        lemma_name_lt_total(a.display_name, b.display_name);
        lemma_name_lt_asymmetric(a.canonical_root, b.canonical_root);
        lemma_name_lt_asymmetric(a.display_name, b.display_name);
        if name_lt(a.canonical_root, b.canonical_root) && name_lt(b.canonical_root, c.canonical_root) {
            lemma_name_lt_transitive(a.canonical_root, b.canonical_root, c.canonical_root);
        }
        if name_lt(a.display_name, b.display_name) && name_lt(b.display_name, c.display_name) {
            lemma_name_lt_transitive(a.display_name, b.display_name, c.display_name);
        }
        if a.canonical_root == b.canonical_root && a.display_name == b.display_name {
            assert(a.source_kind == b.source_kind);
        }
    }

    fn less(&self, other: &PackageIdentity) -> (r: bool) {
        if str_lt(self.canonical_root.as_str(), other.canonical_root.as_str()) {
            true
        } else if self.canonical_root.eq(&other.canonical_root) {
            str_lt(self.display_name.as_str(), other.display_name.as_str())
        } else {
            false
        }
    }

    fn same(&self, other: &PackageIdentity) -> (r: bool) {
        self.canonical_root.eq(&other.canonical_root) && self.display_name.eq(&other.display_name)
    }

    fn copy_key(&self) -> (r: PackageIdentity) {
        self.copy()
    }
}

/// A checked package: its identity, the namespaces it exports, and its
/// typed program.
#[derive(Debug, PartialEq, Eq)]
pub struct TypedPackage {
    pub identity: PackageIdentity,
    pub export_mounts: Vec<TypedExportMount>,
    pub program: TypedProgram,
}

impl TypedPackage {
    /// A package with the given parts.
    pub fn new(identity: PackageIdentity, export_mounts: Vec<TypedExportMount>, program: TypedProgram) -> (r:
        Self)
        ensures
            r.identity == identity,
            r.export_mounts == export_mounts,
            r.program == program,
    {
        TypedPackage { identity, export_mounts, program }
    }
}

/// Every package checked together, keyed by identity, with the entry
/// package's identity and the capability model they are checked under.
#[derive(Debug, PartialEq, Eq)]
pub struct TypedWorkspace {
    capability_model: TypecheckCapabilityModel,
    entry_identity: PackageIdentity,
    packages: SortedMap<PackageIdentity, TypedPackage>,
}

impl TypedWorkspace {
    /// The capability model the workspace is checked under.
    pub closed spec fn spec_capability_model(&self) -> TypecheckCapabilityModel {
        self.capability_model
    }

    /// The identity of the entry package.
    pub closed spec fn spec_entry_identity(&self) -> PackageIdentity {
        self.entry_identity
    }

    /// The packages, by identity.
    pub closed spec fn spec_packages(&self) -> Map<PackageIdentityView, TypedPackage> {
        self.packages.as_map()
    }

    /// The package identities in increasing order.
    pub closed spec fn package_order(&self) -> Seq<PackageIdentityView> {
        self.packages.entries().map_values(|e: (PackageIdentityView, TypedPackage)| e.0)
    }

    /// A workspace of the one package `entry_program`, under the `Std`
    /// capability model.
    pub fn single(entry_identity: PackageIdentity, entry_program: TypedProgram) -> (r: Self)
        ensures
            r.spec_capability_model() == TypecheckCapabilityModel::Std,
            r.spec_entry_identity() == entry_identity,
            r.spec_packages().dom() == set![entry_identity@],
            r.spec_packages()[entry_identity@].identity == entry_identity,
            r.spec_packages()[entry_identity@].export_mounts@.len() == 0,
            r.spec_packages()[entry_identity@].program == entry_program,
    {
        let mut packages: SortedMap<PackageIdentity, TypedPackage> = SortedMap::new();
        let key = entry_identity.copy();
        let package = TypedPackage::new(entry_identity.copy(), Vec::new(), entry_program);
        packages.insert(key, package);
        proof {
            assert(packages.as_map().dom() =~= set![entry_identity@]);
        }
        TypedWorkspace { capability_model: TypecheckCapabilityModel::Std, entry_identity, packages }
    }

    /// A workspace of `packages` with entry `entry_identity`.
    pub fn new(
        capability_model: TypecheckCapabilityModel,
        entry_identity: PackageIdentity,
        packages: SortedMap<PackageIdentity, TypedPackage>,
    ) -> (r: Self)
        ensures
            r.spec_capability_model() == capability_model,
            r.spec_entry_identity() == entry_identity,
            r.spec_packages() == packages.as_map(),
    {
        TypedWorkspace { capability_model, entry_identity, packages }
    }

    /// The capability model the workspace is checked under.
    pub fn capability_model(&self) -> (r: TypecheckCapabilityModel)
        ensures
            r == self.spec_capability_model(),
    {
        self.capability_model
    }

    /// The identity of the entry package.
    pub fn entry_identity(&self) -> (r: &PackageIdentity)
        ensures
            *r == self.spec_entry_identity(),
    {
        &self.entry_identity
    }

    /// The entry package.
    pub fn entry_package(&self) -> (r: &TypedPackage)
        requires
            self.spec_packages().contains_key(self.spec_entry_identity()@),
        ensures
            *r == self.spec_packages()[self.spec_entry_identity()@],
    {
        self.packages.get(&self.entry_identity).unwrap()
    }

    /// The entry package's typed program.
    pub fn entry_program(&self) -> (r: &TypedProgram)
        requires
            self.spec_packages().contains_key(self.spec_entry_identity()@),
        ensures
            *r == self.spec_packages()[self.spec_entry_identity()@].program,
    {
        &self.entry_package().program
    }

    /// The package with `identity`, if the workspace holds one.
    pub fn package(&self, identity: &PackageIdentity) -> (r: Option<&TypedPackage>)
        ensures
            match r {
                Some(p) => self.spec_packages().contains_key(identity@) && *p
                    == self.spec_packages()[identity@],
                None => !self.spec_packages().contains_key(identity@),
            },
    {
        self.packages.get(identity)
    }

    /// Every package, in increasing order of identity.
    pub fn packages(&self) -> (r: Vec<&TypedPackage>)
        ensures
            forall|k: PackageIdentityView|
                #[trigger] self.spec_packages().contains_key(k) <==> self.package_order().contains(k),
            forall|i: int, j: int|
                0 <= i < j < self.package_order().len() ==> PackageIdentity::key_lt(
                    #[trigger] self.package_order()[i],
                    #[trigger] self.package_order()[j],
                ),
            r@.len() == self.package_order().len(),
            forall|i: int|
                0 <= i < r@.len() ==> *r@[i] == self.spec_packages()[#[trigger] self.package_order()[i]],
    {
        let m = &self.packages;
        m.is_well_formed();
        let ghost e = m.entries();
        proof {
            assert forall|i: int| 0 <= i < e.len() implies #[trigger] seq_to_map(e).contains_key(e[i].0)
                && seq_to_map(e)[e[i].0] == e[i].1 by {
                lemma_key_position::<PackageIdentity, TypedPackage>(e, i);
            }
            assert forall|k: PackageIdentityView| #[trigger] self.spec_packages().contains_key(k)
                <==> self.package_order().contains(k) by {
                if self.spec_packages().contains_key(k) {
                    let i = seq_key_index(e, k);
                    assert(self.package_order()[i] == k);
                }
                if self.package_order().contains(k) {
                    let i = choose|i: int| 0 <= i < self.package_order().len() && self.package_order()[i] == k;
                    assert(e[i].0 == k);
                }
            }
        }
        let r = m.values();
        proof {
            assert forall|i: int| 0 <= i < r@.len() implies *r@[i] == seq_to_map(e)[#[trigger] self.package_order()[i]] by {
                assert(self.package_order()[i] == e[i].0);
                assert(seq_to_map(e).contains_key(e[i].0));
                assert(*r@[i] == e[i].1);
            }
        }
        r
    }

    /// How many packages the workspace holds.
    pub fn package_count(&self) -> (r: usize)
        ensures
            r == self.spec_packages().dom().len(),
    {
        let m = &self.packages;
        m.is_well_formed();
        proof {
            lemma_entry_count(m.entries());
        }
        m.len()
    }
}

/// The map read off strictly increasing entries has as many keys as there
/// are entries.
proof fn lemma_entry_count(e: Seq<(PackageIdentityView, TypedPackage)>)
    requires
        crate::sorted_map::keys_increasing::<PackageIdentity, TypedPackage>(e),
    ensures
        seq_to_map(e).dom().len() == e.len(),
        seq_to_map(e).dom().finite(),
    decreases e.len(),
{
    if e.len() == 0 {
        assert(seq_to_map(e).dom() =~= Set::empty());
    } else {
        let last = (e.len() - 1) as int;
        let front = e.take(last);
        assert(crate::sorted_map::keys_increasing::<PackageIdentity, TypedPackage>(front));
        lemma_entry_count(front);
        crate::sorted_map::lemma_prefix_map_step::<PackageIdentity, TypedPackage>(e, last);
        crate::sorted_map::lemma_full_prefix(e);
        assert(e.take(last + 1) =~= e);
    }
}

} // verus!
