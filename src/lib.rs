//! Lifecycle core of a revision-tracked database store: a registry that keeps at most one
//! live editor per database, the plans that seed database, block and view revision logs,
//! and the ordered bootstrap of a new database.

pub mod bootstrap;
pub mod error;
pub mod manager;
pub mod registry;
