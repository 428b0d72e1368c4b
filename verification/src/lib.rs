//! Validation core of an MEV-bundle relay.
//!
//! A submitted bundle is a tree of transactions (raw bytes, precomputed
//! hashes, or nested bundles). The library checks the tree against
//! structural, temporal, economic and privacy rules, rewrites it in place
//! (narrowing inclusion ranges, intersecting builder allow-lists, clearing
//! metadata) and computes the canonical hash that identifies the bundle.

pub mod args;
pub mod constants;
pub mod hashing;
pub mod laws;
pub mod merge;
pub mod tx;
pub mod types;
pub mod validation;
