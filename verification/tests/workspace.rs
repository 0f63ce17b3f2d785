use lib::config::TypecheckCapabilityModel;
use lib::ids::{ScopeId, SourceUnitId, SyntaxNodeId};
use lib::model::{ParsedSourceUnitKind, TypedExportMount, TypedProgram, TypedSourceUnit};
use lib::sorted_map::SortedMap;
use lib::workspace::{
    PackageIdentity, PackageSourceKind, TypedPackage, TypedWorkspace,
};

fn package_identity(name: &str) -> PackageIdentity {
    PackageIdentity {
        source_kind: PackageSourceKind::Entry,
        canonical_root: format!("/tmp/{name}"),
        display_name: name.to_string(),
    }
}

#[test]
fn typed_workspace_retains_capability_model() {
    let identity = package_identity("demo");
    let workspace = TypedWorkspace::new(
        TypecheckCapabilityModel::Core,
        identity.copy(),
        SortedMap::new(),
    );

    assert_eq!(workspace.capability_model(), TypecheckCapabilityModel::Core);
    assert_eq!(workspace.entry_identity(), &identity);
    assert_eq!(workspace.package_count(), 0);
}

#[test]
fn a_single_package_workspace_exposes_its_entry_program() {
    let identity = package_identity("demo");
    let workspace = TypedWorkspace::single(
        identity.copy(),
        TypedProgram::with_model(TypecheckCapabilityModel::Core),
    );
    assert_eq!(workspace.package_count(), 1);
    assert_eq!(workspace.capability_model(), TypecheckCapabilityModel::Std);
    assert_eq!(workspace.entry_identity(), &identity);
    assert_eq!(workspace.entry_package().identity, identity);
    assert!(workspace.entry_package().export_mounts.is_empty());
    assert_eq!(
        workspace.entry_program().capability_model(),
        TypecheckCapabilityModel::Core
    );
    assert!(workspace.package(&identity).is_some());
    assert!(workspace.package(&package_identity("other")).is_none());
}

#[test]
fn packages_are_listed_by_identity() {
    let mut packages: SortedMap<PackageIdentity, TypedPackage> = SortedMap::new();
    for name in ["zeta", "alpha", "mid"] {
        packages.insert(
            package_identity(name),
            TypedPackage::new(
                package_identity(name),
                vec![TypedExportMount {
                    source_namespace: name.to_string(),
                    mounted_namespace_suffix: None,
                }],
                TypedProgram::new(),
            ),
        );
    }
    let workspace = TypedWorkspace::new(
        TypecheckCapabilityModel::Std,
        package_identity("mid"),
        packages,
    );
    assert_eq!(workspace.package_count(), 3);
    let names: Vec<String> = workspace
        .packages()
        .iter()
        .map(|p| p.identity.display_name.clone())
        .collect();
    assert_eq!(names, vec!["alpha", "mid", "zeta"]);
    assert_eq!(workspace.entry_package().export_mounts[0].source_namespace, "mid");
}

fn unit(id: usize, path: &str, kind: ParsedSourceUnitKind) -> TypedSourceUnit {
    TypedSourceUnit {
        source_unit_id: SourceUnitId(id),
        path: path.to_string(),
        package: "demo".to_string(),
        namespace: "demo".to_string(),
        kind,
        scope_id: ScopeId(id),
        top_level_nodes: vec![SyntaxNodeId(id * 10)],
    }
}

#[test]
fn build_and_ordinary_source_units_are_told_apart() {
    let mut typed = TypedProgram::new();
    assert!(typed.source_units().is_empty());
    typed.record_source_unit(unit(0, "build.fol", ParsedSourceUnitKind::Build));
    typed.record_source_unit(unit(1, "src/main.fol", ParsedSourceUnitKind::Ordinary));
    typed.record_source_unit(unit(2, "src/lib.fol", ParsedSourceUnitKind::Ordinary));
    assert_eq!(typed.source_units().len(), 3);
    assert_eq!(typed.source_units()[0].kind, ParsedSourceUnitKind::Build);
    assert_eq!(typed.build_source_units().len(), 1);
    let ordinary: Vec<&str> = typed
        .ordinary_source_units()
        .iter()
        .map(|u| u.path.as_str())
        .collect();
    assert_eq!(ordinary, vec!["src/main.fol", "src/lib.fol"]);
    assert_eq!(typed.source_units()[1].top_level_nodes, vec![SyntaxNodeId(10)]);
}

#[test]
fn typed_workspace_single_package_shell_exposes_entry_program() {
    let mut resolution = lib::resolution::Resolution::new();
    resolution.package = "parser".to_string();
    let entry_identity = PackageIdentity {
        source_kind: PackageSourceKind::Entry,
        canonical_root: resolution.package.clone(),
        display_name: resolution.package.clone(),
    };

    let workspace = TypedWorkspace::single(
        entry_identity.copy(),
        TypedProgram::from_resolution(resolution),
    );

    assert_eq!(workspace.package_count(), 1);
    assert_eq!(workspace.entry_identity(), &entry_identity);
    assert_eq!(workspace.entry_program().package_name(), "parser");
}
