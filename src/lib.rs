//! Probing engine for a fleet of cache nodes: wire codec, registry
//! discovery, rate limiting and probe reconciliation.
pub mod memcached;
pub mod text;
pub mod token_bucket;
pub mod consul;
pub mod probes;
