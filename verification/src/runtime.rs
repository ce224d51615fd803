//! What runs per request: ranking, merging, retrieval and the service.

pub mod merge;
pub mod orderbook;
pub mod providers;
pub mod ranking;
