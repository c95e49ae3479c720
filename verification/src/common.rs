//! A dependency as a test configuration names it.

use vstd::prelude::*;

verus! {

/// One dependency of a configuration.
#[derive(Debug)]
pub struct Dependency {
    pub name: String,
    pub kind: DependencyKind,
    pub version: String,
}

/// Where a dependency comes from.
#[derive(Debug)]
pub enum DependencyKind {
    /// From the registry.
    CratesIo,
    /// From a directory.
    Path(String),
}

/// The dependencies of a configuration and the directory that its sources
/// are under.
#[derive(Debug)]
pub struct Config {
    pub dependencies: Vec<Dependency>,
    pub src_base: String,
}

} // verus!
