//! Verified core of an LLM-API aggregation gateway.
//!
//! The crate holds the in-memory provider pool with its load-balancing
//! strategies and per-key concurrency permits, the provider table with its
//! upsert and eviction rules, the balance reconciler's decision logic, the
//! chat dispatcher's strategy cascade and usage accounting, and the
//! registration pipeline for new provider credentials.  Network and database
//! plumbing live outside the crate and hand these functions plain values.

mod ext;

pub mod admission;
pub mod chat;
pub mod config;
pub mod fixed;
pub mod models;
pub mod pool;
pub mod pricing;
pub mod provider;
pub mod reconciler;
pub mod store;
pub mod text;
pub mod usage;
