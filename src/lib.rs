//! Price aggregation and multi-asset vault accounting.
//!
//! `aggregator` fuses independent price feeds into one trusted price,
//! `registry` keeps the append-only token lists, `vault` holds the per-user
//! balance records, `swap` prices and settles trades between them, and
//! `oracle` keeps the off-chain prices that feed the aggregator
//! (`mock_oracle` with a single price per coin).
pub mod aggregator;
pub mod math;
pub mod mock_oracle;
pub mod oracle;
pub mod registry;
pub mod swap;
pub mod vault;
