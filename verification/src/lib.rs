//! A harness for golden-file tests of macro expansion.
//!
//! A run expands each test unit with an outside expander, brings the output
//! into a canonical form and compares it with the snapshot that is stored
//! beside the unit. This library holds what a run decides and computes, and
//! touches neither files nor processes:
//!
//! - `expand` names the test units that a path or pattern stands for;
//! - `project`, `manifest` and `dependencies` lay out the scratch project in
//!   which the units are expanded, and build its manifest;
//! - `cargo` and `rustflags` say how the expander is called;
//! - `normalize` and `cleanup` bring its output into the canonical form;
//! - `outcome` decides how a unit ends, given its snapshot;
//! - `session` runs the units in order, as a machine that asks its caller
//!   for the work on files and processes, and keeps the tally of failures;
//! - `message` renders what the user is told.

pub mod text;
pub mod lines;
pub mod decimal;
pub mod sorting;
pub mod strings;
pub mod table;
pub mod paths;
pub mod error;
pub mod json;
pub mod common;
pub mod manifest;
pub mod dependencies;
pub mod rustflags;
pub mod cargo;
pub mod message;
pub mod cleanup;
pub mod normalize;
pub mod outcome;
pub mod project;
pub mod expand;
pub mod session;

pub use expand::expand;
pub use expand::expand_args;
pub use expand::expand_args_fail;
pub use expand::expand_fail;
pub use expand::expand_without_refresh;
pub use expand::expand_without_refresh_args;
pub use expand::expand_without_refresh_args_fail;
pub use expand::expand_without_refresh_fail;
