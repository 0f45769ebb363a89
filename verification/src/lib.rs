//! A verified core for a single-upstream reverse proxy.
//!
//! The transport engine (connection handling, HTTP parsing, pooling) lives
//! outside this crate; what lives here is the per-request decision logic:
//! upstream target selection, outbound header mutation (Host,
//! X-Forwarded-For, Referer/Origin URL rewriting), configuration
//! validation, and per-request log-line construction.

pub mod config;
pub mod headers;
pub mod ip;
pub mod logger;
pub mod proxy;
pub mod rewrite;
pub mod scan;
