//! One endpoint seen on the wire.

use crate::frame::MacAddress;
use crate::generic_hash::LifetimeItem;
use crate::traffic_stats::TrafficStats;
use crate::types::Timeval;
use vstd::prelude::*;

verus! {

/// An endpoint, known by its IPv4 address. `refs` counts the flows that
/// refer to the host, once for each end of a flow that it is.
#[derive(Clone, Copy, Debug)]
pub struct Host {
    pub ip: [u8; 4],
    pub mac: MacAddress,
    pub stats: TrafficStats,
    pub refs: u32,
}

impl Host {
    /// A host that has seen no traffic and that nothing refers to.
    pub open spec fn fresh(ip: [u8; 4], mac: MacAddress) -> Host {
        Host { ip, mac, stats: TrafficStats::fresh(), refs: 0 }
    }

    pub fn new(ip: [u8; 4], mac: MacAddress) -> (host: Host)
        ensures
            host == Host::fresh(ip, mac),
    {
        Host { ip: ip, mac: mac, stats: Default::default(), refs: 0 }
    }
}

impl LifetimeItem for Host {
    open spec fn last_seen(&self) -> Timeval {
        self.stats.last_seen
    }

    open spec fn refs(&self) -> u32 {
        self.refs
    }

    open spec fn with_refs(&self, refs: u32) -> Host {
        Host { refs, ..*self }
    }

    proof fn lemma_with_refs(&self, refs: u32) {
    }

    fn get_last_seen(&self) -> (t: Timeval) {
        self.stats.last_seen
    }

    fn get_refs(&mut self) -> (refs: &mut u32) {
        &mut self.refs
    }
}

} // verus!
