//! Resolution of the latest matching build artifact of a CI project, and the
//! decision protocol that keeps a local cache of it consistent.
//!
//! The crate holds the logic of that protocol: which runs and artifacts are
//! acceptable, in which order they are scanned, which single candidate is
//! selected, and what a cache comparison verdict obliges the caller to do.
//! The network transport, the cache storage and the byte-level transform are
//! outside collaborators; they are driven by a thin unverified shell around
//! this crate.

pub mod filter;
pub mod load;
pub mod model;
pub mod resolve;
