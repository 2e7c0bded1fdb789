//! A collection of mutable, versioned records ("entries") together with a
//! tagging relation built from subject-predicate-object facts ("triples").
//!
//! The crate provides a generic repository abstraction with
//! optimistic-concurrency versioning, tag resolution and multi-tag search
//! over the triple store, and an update pipeline that couples the primary
//! store with best-effort reindexing and notification.

pub mod entities;
pub mod error;
pub mod flows;
pub mod frontend;
pub mod gateways;
pub mod laws;
pub mod model;
pub mod repo;
pub mod usecase;
pub mod validate;
