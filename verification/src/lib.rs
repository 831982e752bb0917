//! A verified model of a small production pipeline: orders are expanded into
//! jobs, routed to typed stations with bounded queues and fixed worker pools,
//! and per-order completion is aggregated into a debounced snapshot.

pub mod aggregator;
pub mod dispatch;
pub mod kitchen;
pub mod model;
pub mod pipeline;
pub mod random;
pub mod snapshot;
pub mod station;
pub mod utils;
