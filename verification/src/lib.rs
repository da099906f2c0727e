//! A transparent HTTP reverse proxy core: per-endpoint latency statistics,
//! a raw request log, source-IP blacklisting, and a periodic report cycle.
//!
//! The forwarding decision, the statistics store, and the report rendering
//! are verified; the surrounding HTTP server, client, and timer plumbing
//! live outside this crate and call into it with plain values.

pub mod blacklist;
pub mod config;
pub mod histogram;
pub mod log;
pub mod numfmt;
pub mod proxy;
pub mod report;
pub mod store;
pub mod table;
