//! Core of a programmable endpoint-monitoring platform.
//!
//! The library holds the verified logic of the platform: the classification
//! of HTTP probe outcomes into persisted check records, the scheduling rules
//! for per-monitor cron jobs, the sandboxed JavaScript engine configuration
//! and its security policies, the value bridge between host JSON values and
//! sandbox values, and the structured diagnosis of script failures.
//!
//! I/O (database access, outbound HTTP, the cron clock, signals) lives in an
//! unverified shell that hands this library plain values and persists what it
//! returns.

pub mod bridge;
pub mod config;
pub mod engine;
pub mod error;
pub mod executor;
pub mod json;
pub mod sched;
pub mod security;
pub mod text;
