//! Freshness-tracked caching and the nightly refresh pipeline.
//!
//! The library covers three concerns:
//! - a freshness oracle and a cached-artifact store over a key-value
//!   persistent store (`store`, `cache`),
//! - a bounded-retry fetch driver with rate-limit polling (`retry`),
//! - the per-relation refresh planner and the country-wide daily
//!   statistics aggregation (`cron`, `stats`).
//!
//! All decisions are expressed over plain values: callers probe the file
//! system, query the external service and hand the observed outcomes in,
//! so every rule here is verified for every possible observation.

pub mod cache;
pub mod cron;
pub mod kvlist;
pub mod retry;
pub mod stats;
pub mod store;
pub mod textutil;
