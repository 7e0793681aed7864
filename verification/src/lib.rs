//! Core of a streaming detection engine: declarative rules are compiled into
//! an immutable snapshot, telemetry events are matched against them, and
//! per-key counters over bounded time windows drive threshold correlation.
//!
//! Everything that decides — field lookup, condition and expression
//! evaluation, rule validation, correlation counting, alert construction —
//! is verified. Calls into outside crates (regex matching, the redis-backed
//! counter store, hashing, randomness) stand behind small trusted wrappers
//! whose contracts state what the outside code documents.

pub mod agent;
pub mod alerts;
pub mod config;
pub mod crypto;
pub mod encode;
pub mod evaluator;
pub mod expr;
pub mod hashing;
pub mod laws;
pub mod metrics;
pub mod pattern;
pub mod pipeline;
pub mod platform;
pub mod repo;
pub mod rules;
pub mod store;
pub mod text;
pub mod value;
