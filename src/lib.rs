//! Dependency-update bot core: a lockfile model with a diff engine and its
//! renderers, the per-repository settings, and the decisions that drive
//! branch synchronisation and request submission.

pub mod index_map;
pub mod flake_lock;
pub mod lock_laws;
pub mod render;
pub mod types;
pub mod git;
pub mod update;
pub mod request;
