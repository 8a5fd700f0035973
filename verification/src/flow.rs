//! One bidirectional conversation between two hosts.

use crate::generic_hash::{released, GenericHash, LifetimeItem};
use crate::host::Host;
use crate::traffic_stats::{lemma_account_monotonic, Accounted, TrafficStats};
use crate::types::{Classification, L4Proto, PacketDir, PacketTuple, Timeval};
use vstd::prelude::*;

verus! {

/// After this many packets without a definitive classification a flow is
/// classified by a guess from its tuple.
pub const MAX_PACKETS_BEFORE_DETECTION_GIVEUP: u32 = 8;

/// A conversation. Its two hosts are named by their keys in the host table,
/// `shost` and `dhost`; while the flow lives, each of them counts one
/// reference for it.
#[derive(Clone, Copy, Debug)]
pub struct Flow {
    pub l4proto: L4Proto,
    pub shost: u32,
    pub dhost: u32,
    pub sport: u16,
    pub dport: u16,
    pub stats: TrafficStats,
    pub protocol: Classification,
    pub detection_completed: bool,
    pub refs: u32,
}

/// The host table after one more reference to the host under `ip`.
pub open spec fn acquired(hosts: Map<u32, Host>, ip: u32) -> Map<u32, Host> {
    if hosts.contains_key(ip) {
        hosts.insert(ip, hosts[ip].with_refs((hosts[ip].refs + 1) as u32))
    } else {
        hosts
    }
}

/// The host table after one reference to the host under `ip` was given up.
pub open spec fn released_host(hosts: Map<u32, Host>, ip: u32) -> Map<u32, Host> {
    if hosts.contains_key(ip) {
        hosts.insert(ip, hosts[ip].with_refs(released(hosts[ip].refs)))
    } else {
        hosts
    }
}

/// A flow of `tuple` can be opened when both of its hosts are in the table
/// and their reference counts have room for it.
pub open spec fn can_open(hosts: Map<u32, Host>, tuple: PacketTuple) -> bool {
    &&& hosts.contains_key(tuple.saddr)
    &&& hosts.contains_key(tuple.daddr)
    &&& hosts[tuple.saddr].refs < u32::MAX
    &&& hosts[tuple.daddr].refs < u32::MAX
    &&& tuple.saddr == tuple.daddr ==> hosts[tuple.saddr].refs + 1 < u32::MAX
}

impl Flow {
    /// The flow of `tuple` before its first packet.
    pub open spec fn opened(tuple: PacketTuple) -> Flow {
        Flow {
            l4proto: L4Proto::of(tuple.proto),
            shost: tuple.saddr,
            dhost: tuple.daddr,
            sport: tuple.sport,
            dport: tuple.dport,
            stats: TrafficStats::fresh(),
            protocol: Classification::unknown(),
            detection_completed: false,
            refs: 0,
        }
    }

    /// The direction in which a packet of `tuple` travels along this flow.
    pub open spec fn direction(self, tuple: PacketTuple) -> PacketDir {
        if tuple.sport == self.sport { PacketDir::Src2Dst } else { PacketDir::Dst2Src }
    }

    /// The flow after `set_protocol`.
    pub open spec fn with_protocol(self, proto: Classification) -> Flow {
        Flow {
            protocol: proto,
            detection_completed: self.detection_completed || proto.definitive(),
            ..self
        }
    }

    /// The flow after `set_detected_protocol`.
    pub open spec fn with_detected_protocol(self, proto: Classification) -> Flow {
        Flow { protocol: proto, detection_completed: true, ..self }
    }

    /// Whether it is time to give up on payload inspection: the flow is
    /// still unclassified and has seen enough packets.
    pub open spec fn give_up_due(self) -> bool {
        !self.detection_completed && self.stats.packets_spec()
            >= MAX_PACKETS_BEFORE_DETECTION_GIVEUP
    }

    /// Opens the flow of `tuple` and takes one reference on each of its two
    /// hosts. Where a host is missing from the table, or its reference count
    /// has no room, no flow is opened and the table stays as it is.
    pub fn new(tuple: PacketTuple, hosts: &mut GenericHash<u32, Host>) -> (flow: Option<Flow>)
        requires
            old(hosts).wf(),
        ensures
            final(hosts).wf(),
            final(hosts).idle_timeout() == old(hosts).idle_timeout(),
            can_open(old(hosts)@, tuple) ==> flow == Some(Flow::opened(tuple)) && final(hosts)@
                == acquired(acquired(old(hosts)@, tuple.saddr), tuple.daddr),
            !can_open(old(hosts)@, tuple) ==> flow is None && final(hosts)@ == old(hosts)@,
    {
        let room = match (hosts.get(&tuple.saddr), hosts.get(&tuple.daddr)) {
            (Some(s), Some(d)) => s.refs < u32::MAX && d.refs < u32::MAX && (tuple.saddr
                != tuple.daddr || s.refs < u32::MAX - 1),
            _ => false,
        };
        if !room {
            return None;
        }
        let ghost before = hosts@;
        match hosts.get_mut(&tuple.saddr) {
            Some(shost) => shost.inc_refs(),
            None => {},
        }
        assert(hosts@ == acquired(before, tuple.saddr));
        match hosts.get_mut(&tuple.daddr) {
            Some(dhost) => dhost.inc_refs(),
            None => {},
        }
        Some(
            Flow {
                shost: tuple.saddr,
                dhost: tuple.daddr,
                sport: tuple.sport,
                dport: tuple.dport,
                l4proto: tuple.proto.into(),
                stats: Default::default(),
                protocol: Default::default(),
                detection_completed: false,
                refs: 0,
            },
        )
    }

    /// Closes the flow: the references that it held on its two hosts are
    /// given up.
    pub fn release(self, hosts: &mut GenericHash<u32, Host>)
        requires
            old(hosts).wf(),
        ensures
            final(hosts).wf(),
            final(hosts).idle_timeout() == old(hosts).idle_timeout(),
            final(hosts)@ == released_host(released_host(old(hosts)@, self.shost), self.dhost),
    {
        let ghost before = hosts@;
        match hosts.get_mut(&self.shost) {
            Some(shost) => shost.dec_refs(),
            None => {},
        }
        assert(hosts@ == released_host(before, self.shost));
        match hosts.get_mut(&self.dhost) {
            Some(dhost) => dhost.dec_refs(),
            None => {},
        }
    }

    /// True until the first packet with a non-zero timestamp is counted.
    pub fn just_created(&self) -> (b: bool)
        ensures
            b == (self.stats.last_seen == Timeval::zero()),
    {
        self.stats.last_seen.is_zero()
    }

    pub fn get_direction(&self, tuple: PacketTuple) -> (dir: PacketDir)
        ensures
            dir == self.direction(tuple),
    {
        if tuple.sport == self.sport {
            PacketDir::Src2Dst
        } else {
            PacketDir::Dst2Src
        }
    }

    /// Stores a classification. A definitive one completes the detection;
    /// a completed detection stays completed.
    pub fn set_protocol(&mut self, proto: Classification)
        ensures
            *final(self) == old(self).with_protocol(proto),
            old(self).detection_completed ==> final(self).detection_completed,
    {
        self.protocol = proto;
        if self.protocol.is_definitive() {
            self.detection_completed = true;
        }
    }

    /// Stores a classification and completes the detection, whatever the
    /// classification says.
    pub fn set_detected_protocol(&mut self, proto: Classification)
        ensures
            *final(self) == old(self).with_detected_protocol(proto),
    {
        self.protocol = proto;
        self.detection_completed = true;
    }

    pub fn is_detection_completed(&self) -> (b: bool)
        ensures
            b == self.detection_completed,
    {
        self.detection_completed
    }

    /// Whether a guess from the tuple is due.
    pub fn is_give_up_due(&self) -> (b: bool)
        requires
            self.stats.packets_spec() <= u32::MAX,
        ensures
            b == self.give_up_due(),
    {
        !self.detection_completed && self.stats.packets() >= MAX_PACKETS_BEFORE_DETECTION_GIVEUP
    }
}

/// All that happens to a flow for one packet: the packet itself, what the
/// payload inspection makes of it, and what a guess from the tuple would say.
pub struct PacketStep {
    pub packet: Accounted,
    pub dissected: Classification,
    pub guess: Classification,
}

impl Flow {
    /// The flow with one packet counted.
    pub open spec fn counted(self, packet: Accounted) -> Flow {
        Flow { stats: self.stats.accounted(packet.when, packet.dir, packet.bytes), ..self }
    }

    /// The flow after the classification that follows a counted packet: a
    /// classified flow is left alone; otherwise the outcome of the inspection
    /// is stored, and if a guess is due after that, the guess.
    pub open spec fn classified(self, dissected: Classification, guess: Classification) -> Flow {
        if self.detection_completed {
            self
        } else if self.with_protocol(dissected).give_up_due() {
            self.with_protocol(dissected).with_detected_protocol(guess)
        } else {
            self.with_protocol(dissected)
        }
    }

    /// The flow after a sequence of packets, each counted and then
    /// classified.
    pub open spec fn after_packets(self, steps: Seq<PacketStep>) -> Flow
        decreases steps.len(),
    {
        if steps.len() == 0 {
            self
        } else {
            let step = steps.last();
            self.after_packets(steps.drop_last()).counted(step.packet).classified(
                step.dissected,
                step.guess,
            )
        }
    }

    /// A packet of the very tuple that the flow was opened for travels from
    /// source to destination, and one of the reversed tuple the other way,
    /// unless both ports are the same. Neither the packets nor their
    /// classification change the port that the directions are told by.
    pub proof fn lemma_directions(tuple: PacketTuple, steps: Seq<PacketStep>)
        ensures
            Flow::opened(tuple).after_packets(steps).sport == tuple.sport,
            Flow::opened(tuple).after_packets(steps).direction(tuple) == PacketDir::Src2Dst,
            tuple.sport != tuple.dport ==> Flow::opened(tuple).after_packets(steps).direction(
                tuple.reversed_spec(),
            ) == PacketDir::Dst2Src,
        decreases steps.len(),
    {
        if steps.len() > 0 {
            Flow::lemma_directions(tuple, steps.drop_last());
        }
    }

    /// Once the detection is completed, it stays completed: no classification
    /// that is stored afterwards, and no packet, reverts it.
    pub proof fn lemma_latch(self, proto: Classification, step: PacketStep)
        requires
            self.detection_completed,
        ensures
            self.with_protocol(proto).detection_completed,
            self.with_detected_protocol(proto).detection_completed,
            self.counted(step.packet).detection_completed,
            self.counted(step.packet).classified(step.dissected, step.guess).detection_completed,
    {
    }

    /// A completed detection survives any sequence of packets.
    pub proof fn lemma_latch_holds(self, steps: Seq<PacketStep>)
        requires
            self.detection_completed,
        ensures
            self.after_packets(steps).detection_completed,
        decreases steps.len(),
    {
        if steps.len() > 0 {
            self.lemma_latch_holds(steps.drop_last());
        }
    }

    /// What the packet counter of a new flow shows after some packets: their
    /// number, or the limit of the counter if there were more.
    pub proof fn lemma_packets_counted(tuple: PacketTuple, steps: Seq<PacketStep>)
        ensures
            Flow::opened(tuple).after_packets(steps).stats.wf(),
            Flow::opened(tuple).after_packets(steps).stats.packets_spec() == if steps.len()
                <= u32::MAX {
                steps.len() as int
            } else {
                u32::MAX as int
            },
        decreases steps.len(),
    {
        if steps.len() > 0 {
            Flow::lemma_packets_counted(tuple, steps.drop_last());
            let prev = Flow::opened(tuple).after_packets(steps.drop_last());
            let p = steps.last().packet;
            lemma_account_monotonic(prev.stats, p.when, p.dir, p.bytes);
        }
    }

    /// A flow is classified by its eighth packet at the latest, whatever the
    /// payload inspection says.
    pub proof fn lemma_give_up_bound(tuple: PacketTuple, steps: Seq<PacketStep>)
        requires
            steps.len() >= MAX_PACKETS_BEFORE_DETECTION_GIVEUP,
        ensures
            Flow::opened(tuple).after_packets(steps).detection_completed,
    {
        Flow::lemma_packets_counted(tuple, steps);
        Flow::lemma_packets_counted(tuple, steps.drop_last());
        let prev = Flow::opened(tuple).after_packets(steps.drop_last());
        let p = steps.last().packet;
        lemma_account_monotonic(prev.stats, p.when, p.dir, p.bytes);
    }

    /// While no inspection is definitive, a new flow stays unclassified for
    /// its first seven packets, and the eighth classifies it by the guess
    /// that comes with it.
    pub proof fn lemma_give_up_by_guess(tuple: PacketTuple, steps: Seq<PacketStep>)
        requires
            forall|i: int| 0 <= i < steps.len() ==> !(#[trigger] steps[i]).dissected.definitive(),
        ensures
            steps.len() < MAX_PACKETS_BEFORE_DETECTION_GIVEUP ==> !Flow::opened(tuple).after_packets(
                steps,
            ).detection_completed,
            steps.len() == MAX_PACKETS_BEFORE_DETECTION_GIVEUP ==> Flow::opened(tuple).after_packets(
                steps,
            ).protocol == steps.last().guess,
        decreases steps.len(),
    {
        if steps.len() > 0 {
            Flow::lemma_give_up_by_guess(tuple, steps.drop_last());
            Flow::lemma_packets_counted(tuple, steps.drop_last());
            Flow::lemma_packets_counted(tuple, steps);
            let prev = Flow::opened(tuple).after_packets(steps.drop_last());
            let p = steps.last().packet;
            lemma_account_monotonic(prev.stats, p.when, p.dir, p.bytes);
            assert(!steps[steps.len() - 1].dissected.definitive());
        }
    }
}

impl LifetimeItem for Flow {
    open spec fn last_seen(&self) -> Timeval {
        self.stats.last_seen
    }

    open spec fn refs(&self) -> u32 {
        self.refs
    }

    open spec fn with_refs(&self, refs: u32) -> Flow {
        Flow { refs, ..*self }
    }

    proof fn lemma_with_refs(&self, refs: u32) {
    }

    fn get_last_seen(&self) -> (t: Timeval) {
        self.stats.last_seen
    }

    fn get_refs(&mut self) -> (refs: &mut u32) {
        &mut self.refs
    }
}

} // verus!
