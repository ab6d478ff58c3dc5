//! Core logic of an external-dns webhook provider for a zone-oriented DNS
//! backend: record-content normalization, endpoint/RRset conversion, zone
//! resolution by longest-suffix walk, and ordered, fail-fast change planning.
//!
//! Everything here is pure: the HTTP server and the backend client live
//! outside this crate and exchange plain values with it.

pub mod adjust;
pub mod changes;
pub mod config;
pub mod dns;
pub mod normalize;
pub mod pdns;
pub mod strutil;
