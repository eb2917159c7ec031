//! Locates version-number occurrences across a project tree and rewrites them
//! consistently when the project's version changes.
//!
//! The crate covers the location-pattern resolution and multi-match
//! substitution engine: turning declarative "where version strings live"
//! rules into compiled patterns, deriving a new version from a bump policy,
//! and rewriting all matched spans of a file without disturbing any other
//! byte.

pub mod config;
pub mod default_locations;
pub mod defaults;
pub mod error;
pub mod matching;
pub mod resolve;
pub mod rewrite;
pub mod text;
pub mod version;
pub mod workflows;
