//! Per-peer telemetry aggregation for a peer-to-peer node.
//!
//! Raw timing observations (ping round trips, end-to-end transmission
//! latencies) are recorded per peer in bounded sliding windows, summarized
//! on demand as arithmetic means, and rendered in a stable textual form.
//! A small lifecycle state machine guarantees that the terminal summary is
//! produced exactly once.

pub mod codec;
pub mod helper_fns;
pub mod lifecycle;
pub mod stats;
pub mod store;
pub mod text;
pub mod window;
