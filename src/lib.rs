//! `prj`: a registry of local development projects.
//!
//! The library holds the decisions of the tool: which directories are
//! project roots, how a scan prunes its walk, how the registry of projects
//! changes, how names are ranked against a fuzzy query, and how the
//! interactive navigator moves between its modes.

pub mod clean;
pub mod clone;
pub mod config;
pub mod detect;
pub mod fuzzy;
pub mod manifest;
pub mod nav;
pub mod registry;
pub mod scan;
pub mod shell;
pub mod stats;
pub mod storage;
pub mod store;
pub mod tags;
