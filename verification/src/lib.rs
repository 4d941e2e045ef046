//! Verified core of an egress-proxy pool manager: candidate preparation,
//! probe-outcome bookkeeping, proxy selection with lazy eviction, per-proxy
//! statistics, and diagnostic report assembly.

pub mod client;
pub mod config;
pub mod error;
pub mod logging;
pub mod manager;
pub mod page;
pub mod stats;
pub mod utils;
