//! Core of a private package registry.
//!
//! The crate keeps a queryable, versioned index of published package
//! versions, resolves semantic-version requirements against it with
//! yank-exclusion semantics, and drives the publish workflow that keeps
//! the index consistent with archive storage and the relational catalog.
//! All state-changing operations go through `&mut` receivers, so commits
//! to one index value can never interleave.

pub mod api;
pub mod config;
pub mod errors;
pub mod index;
pub mod laws;
pub mod models;
pub mod parse;
pub mod publish;
pub mod record;
pub mod requirement;
pub mod resolver;
pub mod scope;
pub mod storage;
pub mod store;
pub mod version;
