//! Flow tracking for a live network monitor: frames are grouped into flows
//! keyed by their 5-tuple, per-flow and per-host counters are kept, and idle
//! entries are evicted once nothing refers to them any more.

pub mod flow;
pub mod frame;
pub mod generic_hash;
pub mod host;
pub mod managed_ptr;
pub mod packet_handler;
pub mod tracking;
pub mod traffic_stats;
pub mod types;
