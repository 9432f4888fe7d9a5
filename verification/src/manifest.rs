//! The build-manifest data model, as the engine consumes it: package
//! name and version for the publish workflow, workspace membership for
//! locating a package. Parsing the manifest file format is the caller's
//! affair; the engine only reads these plain values.

use vstd::prelude::*;

verus! {

/// A package manifest: the package itself and its declared dependencies,
/// in declaration order.
#[derive(Debug, Clone, PartialEq)]
pub struct Manifest {
    pub package: Package,
    pub dependencies: Vec<(String, DependencyField)>,
}

/// The package table of a manifest.
#[derive(Debug, Clone, PartialEq)]
pub struct Package {
    pub name: String,
    pub version: String,
    pub edition: Option<String>,
    pub authors: Vec<String>,
    pub description: Option<String>,
    pub repository: Option<String>,
    pub readme: Option<String>,
    pub license: Option<String>,
    pub publish: bool,
}

/// A dependency entry: a bare version requirement, or a detailed table.
#[derive(Debug, Clone, PartialEq)]
pub enum DependencyField {
    Version(String),
    Dependency(Dependency),
}

/// A detailed dependency table.
#[derive(Debug, Clone, PartialEq)]
pub struct Dependency {
    pub version: String,
    pub features: Vec<String>,
    pub path: Option<String>,
}

/// A located package: where its manifest lies, and what it holds.
#[derive(Debug, Clone, PartialEq)]
pub struct Crate {
    pub manifest_path: String,
    pub manifest: Manifest,
}

/// A workspace manifest.
#[derive(Debug, Clone, PartialEq)]
pub struct WorkspaceManifest {
    pub workspace: Workspace,
}

/// The workspace table: members and exclusions are searched in order when
/// a package is looked up by name.
#[derive(Debug, Clone, PartialEq)]
pub struct Workspace {
    pub resolver: Option<String>,
    pub members: Vec<String>,
    pub exclude: Vec<String>,
}

/// Whether a parsed manifest belongs to the named package: the decision
/// the workspace search makes for each member it reads.
pub fn manifest_matches(manifest: &Manifest, package_name: &str) -> (r: bool)
    ensures
        r == (manifest.package.name@ == package_name@),
{
    manifest.package.name == package_name.to_owned()
}

} // verus!
