//! The manifest and the build configuration of the scratch project.

use vstd::prelude::*;
use vstd::string::*;
use crate::dependencies::{Dependency, Patch, RegistryPatch};
use crate::json::{json_string, string_value};
use crate::table::Table;

verus! {

/// The manifest of the scratch project.
#[derive(Debug)]
pub struct Manifest {
    pub cargo_features: Vec<String>,
    pub package: Package,
    pub features: Table<Vec<String>>,
    pub dependencies: Table<Dependency>,
    pub dev_dependencies: Table<Dependency>,
    pub bins: Vec<Bin>,
    pub workspace: Option<Workspace>,
    pub patch: Table<RegistryPatch>,
    pub replace: Table<Patch>,
}

/// The package of the scratch project.
#[derive(Debug)]
pub struct Package {
    pub name: String,
    pub version: String,
    pub publish: bool,
    pub edition: Edition,
}

/// An edition, kept as the manifest gives it: a later edition needs no
/// change here.
#[derive(Debug)]
pub struct Edition(pub serde_json::Value);

/// A build target: its name and the path of its source.
#[derive(Debug)]
pub struct Bin {
    pub name: Name,
    pub path: String,
}

/// The name of a build target.
#[derive(Debug, Clone, PartialEq, Eq)]
pub struct Name(pub String);

/// The build configuration of the scratch project.
#[derive(Debug)]
pub struct Config {
    pub build: Build,
}

/// The `build` table of the configuration.
#[derive(Debug)]
pub struct Build {
    pub rustflags: Vec<String>,
}

/// The `workspace` table of the manifest.
#[derive(Debug)]
pub struct Workspace {
    pub package: WorkspacePackage,
    pub dependencies: Table<Dependency>,
}

/// The `workspace.package` table of the manifest.
#[derive(Debug)]
pub struct WorkspacePackage {
    pub edition: Option<String>,
}

impl WorkspacePackage {
    /// Whether the table names no edition.
    pub fn is_none(&self) -> (b: bool)
        ensures
            b == (self.edition is None),
    {
        self.edition.is_none()
    }
}

impl Default for Edition {
    /// The edition 2021.
    fn default() -> (e: Self)
        ensures
            e.0 == json_string("2021"@),
    {
        Edition(string_value("2021"))
    }
}

impl Name {
    /// The name as a text.
    pub fn as_str(&self) -> (s: &str)
        ensures
            s@ == self.0@,
    {
        self.0.as_str()
    }
}

impl Manifest {
    /// No table of the manifest holds a name twice.
    pub open spec fn wf(self) -> bool {
        &&& self.features.wf()
        &&& self.dependencies.wf()
        &&& self.dev_dependencies.wf()
        &&& self.patch.wf()
        &&& self.replace.wf()
        &&& match self.workspace {
            Some(w) => w.dependencies.wf(),
            None => true,
        }
    }
}

} // verus!
