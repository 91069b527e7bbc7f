//! A JSON-RPC gateway core for blockchain node providers: chain-scoped routing,
//! provider selection with cooldown-aware failover, rate-limit tracking and the
//! per-request state machine that ties them together.

pub mod chain;
pub mod error;
pub mod providers;
pub mod metrics;
pub mod tracker;
pub mod registry;
pub mod analytics;
pub mod handlers;
