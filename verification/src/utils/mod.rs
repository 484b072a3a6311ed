//! Utility types used by several use cases.

pub mod backoff_map;
pub mod exponential_backoff;
pub mod inflight_req_map;
pub mod nonce;
pub mod rediscovery_timeout_interval;
pub mod vicinity_graph;

pub use backoff_map::BackoffMap;
pub use exponential_backoff::ExponentialBackoff;
pub use inflight_req_map::InflightReqMap;
pub use vicinity_graph::VicinityGraph;
