//! Reliability and liquidity metrics for payment anchors and asset corridors,
//! served through a cache-aside pipeline with deterministic keys.
pub mod keys;
pub mod metrics;
pub mod anchors;
pub mod amount;
pub mod corridors;
pub mod filter;
pub mod listing;
pub mod error;
pub mod cache;
pub mod detail;
