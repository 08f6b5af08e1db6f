//! Decisions of a tool that adds, removes and upgrades the dependencies of a
//! manifest: which version to pin for a package, under which spelling of its
//! name a registry holds it, and how the manifest changes.

pub mod commands;
pub mod crates;
pub mod document;
pub mod error;
pub mod search;
pub mod slot;
pub mod spelling;
pub mod text;
pub mod version;
