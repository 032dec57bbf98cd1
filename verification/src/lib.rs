//! Verified core of a Steam statistics fetcher.
//!
//! The pipeline classifies API responses into a closed error taxonomy,
//! retries retryable failures with a bounded exponential backoff, blends
//! cached and freshly fetched per-game achievement data into one
//! deterministic aggregate, and assembles the final report. Network and
//! file work stays with the caller: every function here computes from
//! plain values and states what it returns.

pub mod aggregate;
pub mod appids;
pub mod cache;
pub mod classify;
pub mod config;
pub mod error;
pub mod models;
pub mod percent;
pub mod report;
pub mod retry;
pub mod text;
