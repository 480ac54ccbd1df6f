//! A TTL-aware, least-recently-used cache for DNS lookup results.
//!
//! The cache stores positive answer sets and negative (no-records) outcomes
//! keyed by the query that produced them, clamps time-to-live values into
//! configured bounds, and expires entries lazily on lookup.

pub mod config;
pub mod dns_lru;
pub mod error;
pub mod laws;
pub mod lookup;
pub mod model;
pub mod rr;
pub mod store;
