//! What can stop a run before any test unit is judged.

use vstd::prelude::*;
use vstd::string::*;
use crate::strings::{join2, join3};

verus! {

/// A failure of the harness itself. Where the failure comes from outside the
/// library, the variant holds the words of the error that was reported.
#[derive(Debug, Clone, PartialEq, Eq)]
pub enum Error {
    /// `cargo` could not be run.
    Cargo(String),
    /// `cargo expand` could not be run.
    CargoExpandExecution(String),
    /// `cargo` ran and gave no output to read.
    CargoFail,
    /// The output of `cargo metadata` could not be read.
    CargoMetadata(String),
    /// A file or directory could not be read, written or removed.
    Io(String),
    /// A manifest could not be written as TOML.
    TomlSer(String),
    /// A manifest could not be read as TOML.
    TomlDe(String),
    /// A path that matched a pattern could not be read.
    Glob(String),
    /// A pattern is malformed.
    GlobPattern(String),
    /// The directory of the host package is not known.
    ManifestDir,
    /// The name of the host package is not known.
    PkgName,
    /// The overwrite switch holds a value that is not recognized.
    UnrecognizedEnv(String),
    /// A path names no file.
    NoFileStem,
}

/// The words in which an error is reported.
pub open spec fn message_of(e: Error) -> Seq<char> {
    match e {
        Error::Cargo(m) => m@,
        Error::CargoExpandExecution(m) => "Failed to execute cargo command: "@ + m@,
        Error::CargoFail => "cargo reported an error"@,
        Error::CargoMetadata(m) => m@,
        Error::Io(m) => m@,
        Error::TomlSer(m) => m@,
        Error::TomlDe(m) => m@,
        Error::Glob(m) => m@,
        Error::GlobPattern(m) => m@,
        Error::ManifestDir => "could not find CARGO_MANIFEST_DIR env var"@,
        Error::PkgName => "could not find CARGO_PKG_NAME env var"@,
        Error::UnrecognizedEnv(v) => "unrecognized value of MACROTEST: \""@ + v@ + "\""@,
        Error::NoFileStem => "no file stem"@,
    }
}

impl Error {
    /// A copy of the error.
    pub fn duplicate(&self) -> (out: Error)
        ensures
            out == *self,
    {
        match self {
            Error::Cargo(m) => Error::Cargo(m.clone()),
            Error::CargoExpandExecution(m) => Error::CargoExpandExecution(m.clone()),
            Error::CargoFail => Error::CargoFail,
            Error::CargoMetadata(m) => Error::CargoMetadata(m.clone()),
            Error::Io(m) => Error::Io(m.clone()),
            Error::TomlSer(m) => Error::TomlSer(m.clone()),
            Error::TomlDe(m) => Error::TomlDe(m.clone()),
            Error::Glob(m) => Error::Glob(m.clone()),
            Error::GlobPattern(m) => Error::GlobPattern(m.clone()),
            Error::ManifestDir => Error::ManifestDir,
            Error::PkgName => Error::PkgName,
            Error::UnrecognizedEnv(v) => Error::UnrecognizedEnv(v.clone()),
            Error::NoFileStem => Error::NoFileStem,
        }
    }

    /// The words in which the error is reported.
    pub fn message(&self) -> (out: String)
        ensures
            out@ == message_of(*self),
    {
        match self {
            Error::Cargo(m) => m.clone(),
            Error::CargoExpandExecution(m) => join2("Failed to execute cargo command: ", m.as_str()),
            Error::CargoFail => "cargo reported an error".to_owned(),
            Error::CargoMetadata(m) => m.clone(),
            Error::Io(m) => m.clone(),
            Error::TomlSer(m) => m.clone(),
            Error::TomlDe(m) => m.clone(),
            Error::Glob(m) => m.clone(),
            Error::GlobPattern(m) => m.clone(),
            Error::ManifestDir => "could not find CARGO_MANIFEST_DIR env var".to_owned(),
            Error::PkgName => "could not find CARGO_PKG_NAME env var".to_owned(),
            Error::UnrecognizedEnv(v) => join3("unrecognized value of MACROTEST: \"", v.as_str(), "\""),
            Error::NoFileStem => "no file stem".to_owned(),
        }
    }
}

} // verus!
