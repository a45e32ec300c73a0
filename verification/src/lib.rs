//! `zag` keeps the manifest of a project's dependencies and prepares a project
//! to use the tool.
//!
//! The manifest model, its JSON encoding, the rules for adding a dependency
//! and the steps of a bootstrap are verified. Reading and writing files and
//! running the version-control tool are left to the program around this
//! library, which hands over plain values and carries out the actions that the
//! library decides on.
pub mod command;
pub mod error;
pub mod format;
pub mod json;
pub mod pairs;
pub mod parse;
