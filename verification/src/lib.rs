//! Request pipeline of a privacy-preserving reverse proxy for a blockchain
//! JSON-RPC endpoint: privacy policy, canonical request form, cache keys,
//! TTL cache, retrying forwarder, frame relay and request orchestration.

pub mod cache;
pub mod cache_key;
pub mod config;
pub mod forward;
pub mod json;
pub mod log_events;
pub mod members;
pub mod metrics;
pub mod normalize;
pub mod privacy_mode;
pub mod proxy;
pub mod relay;
pub mod text;
