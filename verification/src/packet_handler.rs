//! The tracker: it takes frames in, keeps the flow and host tables, and
//! evicts what has gone idle.

use crate::flow::Flow;
use crate::frame::{frame_headers, parse_tuple, parsed_packet, MacAddress, ParsedPacket};
use crate::generic_hash::{has_key, lists_entries, GenericHash, LifetimeItem};
use crate::host::Host;
use crate::tracking::{
    accepts, after_packet, counted, empty_state, ends_at, flow_after, flow_before, flow_key,
    flows_due, guess_due,
    has_room, holders, ingested, inv, latched, lemma_classification_keeps_inv,
    lemma_holders_empty, lemma_holders_remove, lemma_ingest_keeps_inv, lemma_purge_keeps_inv,
    purged, recounted, refs_of, touched, with_dissection, with_guess, EngineState, PacketHeader,
    FLOW_IDLE_TIMEOUT_SEC, HOST_IDLE_TIMEOUT_SEC,
};
use crate::types::{ipv4_octets, u32_to_ipv4, Classification, PacketDir, PacketTuple, Timeval};
use vstd::prelude::*;

verus! {

broadcast use vstd::std_specs::hash::group_hash_axioms;

/// What became of a frame, and what is left to do for it.
#[derive(Clone, Copy, Debug)]
pub enum Verdict {
    /// The frame carries no complete, valid IPv4 5-tuple. Nothing changed.
    Dropped,
    /// The frame would open a flow, but the reference count of one of its
    /// hosts has no room for it. Nothing changed.
    Exhausted,
    /// The frame was counted on the flow under `key`, which is classified
    /// already.
    Classified { key: u128 },
    /// The frame was counted on the flow under `key`, which is not
    /// classified yet: what starts at `ip_offset` in the frame is to be
    /// inspected, as a packet of that flow travelling in direction `dir`,
    /// and the outcome handed to `PacketHandler::dissected` together with
    /// `tuple`, the tuple of the frame.
    Dissect { key: u128, tuple: PacketTuple, dir: PacketDir, ip_offset: usize },
}

/// What becomes of a frame that contributes `parsed`, on the tracker `s`.
pub open spec fn verdict_of(s: EngineState, header: PacketHeader, parsed: Option<ParsedPacket>)
    -> Verdict {
    match parsed {
        None => Verdict::Dropped,
        Some(p) => {
            if !accepts(s, p.tuple) {
                Verdict::Exhausted
            } else if flow_after(s, header, p.tuple).detection_completed {
                Verdict::Classified { key: flow_key(s, p.tuple) }
            } else {
                Verdict::Dissect {
                    key: flow_key(s, p.tuple),
                    tuple: p.tuple,
                    dir: flow_before(s, p.tuple).direction(p.tuple),
                    ip_offset: p.ip_offset,
                }
            }
        },
    }
}

/// The counters of every host are well-formed.
pub open spec fn stats_wf(hosts: Map<u32, Host>) -> bool {
    forall|ip: u32| #[trigger] hosts.contains_key(ip) ==> hosts[ip].stats.wf()
}

/// Makes sure that there is a host under `ip`.
fn touch_host(hosts: &mut GenericHash<u32, Host>, ip: u32, mac: MacAddress)
    requires
        old(hosts).wf(),
    ensures
        final(hosts).wf(),
        final(hosts).idle_timeout() == old(hosts).idle_timeout(),
        final(hosts)@ == touched(old(hosts)@, ip, mac),
{
    let ghost before = hosts@;
    let builder = || -> (h: Host)
        ensures
            h == Host::fresh(ipv4_octets(ip), mac),
        { Host::new(u32_to_ipv4(ip), mac) };
    let _ = hosts.or_insert(ip, builder);
    assert(hosts@ =~= touched(before, ip, mac));
}

/// Sets the hardware address of the host under `ip`.
fn latch_host(hosts: &mut GenericHash<u32, Host>, ip: u32, mac: MacAddress)
    requires
        old(hosts).wf(),
    ensures
        final(hosts).wf(),
        final(hosts).idle_timeout() == old(hosts).idle_timeout(),
        final(hosts)@ == latched(old(hosts)@, ip, mac),
{
    match hosts.get_mut(&ip) {
        Some(host) => {
            host.mac = mac;
        },
        None => {},
    }
}

/// Counts one packet on the host under `ip`.
fn count_host(hosts: &mut GenericHash<u32, Host>, ip: u32, when: Timeval, dir: PacketDir, bytes: u32)
    requires
        old(hosts).wf(),
        stats_wf(old(hosts)@),
    ensures
        final(hosts).wf(),
        final(hosts).idle_timeout() == old(hosts).idle_timeout(),
        final(hosts)@ == counted(old(hosts)@, ip, when, dir, bytes),
        stats_wf(final(hosts)@),
{
    let ghost before = hosts@;
    match hosts.get_mut(&ip) {
        Some(host) => {
            assert(before.contains_key(ip));
            host.stats.account_packet(when, dir, bytes);
        },
        None => {},
    }
}

/// Whether the reference counts of the hosts of `tuple` have room for one
/// more flow.
fn room_for(hosts: &GenericHash<u32, Host>, tuple: &PacketTuple) -> (room: bool)
    requires
        hosts.wf(),
    ensures
        room == has_room(hosts@, *tuple),
{
    let twice: u32 = if tuple.saddr == tuple.daddr { 1 } else { 0 };
    let src: u32 = match hosts.get(&tuple.saddr) {
        Some(host) => host.refs,
        None => 0,
    };
    let dst: u32 = match hosts.get(&tuple.daddr) {
        Some(host) => host.refs,
        None => 0,
    };
    src < u32::MAX - twice && dst < u32::MAX - twice
}

/// The key under which the flow of a packet of `tuple` is looked up: that of
/// the tuple, or that of the reversed tuple where only that one has a flow.
fn key_for(flows: &GenericHash<u128, Flow>, tuple: &PacketTuple) -> (key: u128)
    requires
        flows.wf(),
    ensures
        key == flow_key(EngineState { hosts: Map::empty(), flows: flows@ }, *tuple),
{
    let key = tuple.key();
    if flows.get(&key).is_some() {
        return key;
    }
    let back = tuple.reversed().key();
    if flows.get(&back).is_some() {
        back
    } else {
        key
    }
}

pub struct PacketHandler {
    flows: GenericHash<u128, Flow>,
    hosts: GenericHash<u32, Host>,
}

impl PacketHandler {
    /// The hosts and flows that the tracker holds.
    pub closed spec fn view(&self) -> EngineState {
        EngineState { hosts: self.hosts@, flows: self.flows@ }
    }

    /// The tables are sound and configured with the two idle timeouts, and
    /// what they hold satisfies `inv`.
    pub closed spec fn wf(&self) -> bool {
        &&& self.flows.wf()
        &&& self.hosts.wf()
        &&& self.flows.idle_timeout() == FLOW_IDLE_TIMEOUT_SEC
        &&& self.hosts.idle_timeout() == HOST_IDLE_TIMEOUT_SEC
        &&& inv(self@)
    }

    /// A well-formed tracker satisfies the invariant.
    pub proof fn lemma_wf_inv(&self)
        requires
            self.wf(),
        ensures
            inv(self@),
    {
    }

    pub fn new() -> (handler: PacketHandler)
        ensures
            handler.wf(),
            handler@ == empty_state(),
    {
        let handler = PacketHandler {
            flows: GenericHash::new(FLOW_IDLE_TIMEOUT_SEC),
            hosts: GenericHash::new(HOST_IDLE_TIMEOUT_SEC),
        };
        proof {
            assert forall|ip: u32| #[trigger]
                refs_of(handler@.hosts, ip) == crate::tracking::holders(handler@.flows, ip) by {
                lemma_holders_empty(ip);
            }
        }
        handler
    }

    /// Takes in what one frame contributes: its hosts and its flow are
    /// looked up or made, and the frame is counted on all three.
    pub fn process_parsed(&mut self, header: &PacketHeader, parsed: &Option<ParsedPacket>) -> (verdict:
        Verdict)
        requires
            old(self).wf(),
        ensures
            final(self).wf(),
            final(self)@ == after_packet(old(self)@, *header, *parsed),
            verdict == verdict_of(old(self)@, *header, *parsed),
    {
        let p = match parsed {
            Some(p) => p,
            None => { return Verdict::Dropped; },
        };
        let ghost before = self@;
        let tuple = p.tuple;
        let key = key_for(&self.flows, &tuple);
        let known = self.flows.get(&key).is_some();
        assert(key == flow_key(before, tuple));
        if !known && !room_for(&self.hosts, &tuple) {
            return Verdict::Exhausted;
        }
        touch_host(&mut self.hosts, tuple.saddr, p.src_mac);
        touch_host(&mut self.hosts, tuple.daddr, p.dst_mac);
        if !known {
            match Flow::new(tuple, &mut self.hosts) {
                Some(flow) => {
                    let builder = move || -> (f: Flow)
                        ensures
                            f == flow,
                        { flow };
                    let _ = self.flows.or_insert(key, builder);
                },
                None => {
                    assert(false);
                },
            }
        }
        let (first, dir, done) = match self.flows.get_mut(&key) {
            Some(flow) => {
                let first = flow.just_created();
                let dir = flow.get_direction(tuple);
                flow.stats.account_packet(header.ts, dir, header.len);
                (first, dir, flow.is_detection_completed())
            },
            None => {
                assert(false);
                (false, PacketDir::Src2Dst, true)
            },
        };
        assert(self.flows@ =~= before.flows.insert(key, flow_after(before, *header, tuple)));
        if first {
            latch_host(&mut self.hosts, tuple.saddr, p.src_mac);
            latch_host(&mut self.hosts, tuple.daddr, p.dst_mac);
        }
        proof {
            lemma_ingest_keeps_inv(before, *header, *p);
            assert(stats_wf(self.hosts@));
        }
        count_host(&mut self.hosts, tuple.saddr, header.ts, dir, header.len);
        count_host(&mut self.hosts, tuple.daddr, header.ts, dir, header.len);
        assert(self@ == ingested(before, *header, *p));
        if done {
            Verdict::Classified { key }
        } else {
            Verdict::Dissect { key, tuple, dir, ip_offset: p.ip_offset }
        }
    }

    /// Takes in one captured frame. What the frame contributes is what
    /// `parse_tuple` finds in it; the rest is `process_parsed`.
    pub fn process_packet(&mut self, header: &PacketHeader, packet: &[u8]) -> (verdict: Verdict)
        requires
            old(self).wf(),
        ensures
            final(self).wf(),
            final(self)@ == after_packet(
                old(self)@,
                *header,
                parsed_packet(frame_headers(packet@), packet@.len() as usize),
            ),
            verdict == verdict_of(
                old(self)@,
                *header,
                parsed_packet(frame_headers(packet@), packet@.len() as usize),
            ),
            verdict matches Verdict::Dissect { ip_offset, .. } ==> ip_offset <= packet@.len(),
    {
        let parsed = parse_tuple(packet);
        self.process_parsed(header, &parsed)
    }

    /// Takes in the outcome of the payload inspection that a `Dissect`
    /// verdict asked for; `tuple` is the tuple of the inspected frame, and
    /// its flow is found as a frame's is. Returns whether a guess from the
    /// tuple is due now: the flow is still unclassified and has seen enough
    /// packets. The guess goes to `guessed`.
    pub fn dissected(&mut self, tuple: &PacketTuple, result: Classification) -> (due: bool)
        requires
            old(self).wf(),
        ensures
            final(self).wf(),
            final(self)@ == with_dissection(old(self)@, flow_key(old(self)@, *tuple), result),
            due == guess_due(old(self)@, flow_key(old(self)@, *tuple), result),
    {
        let ghost before = self@;
        let key = key_for(&self.flows, tuple);
        assert(key == flow_key(before, *tuple));
        proof {
            lemma_classification_keeps_inv(before, key, result);
        }
        let due = match self.flows.get_mut(&key) {
            Some(flow) => {
                if flow.is_detection_completed() {
                    false
                } else {
                    flow.set_protocol(result);
                    flow.is_give_up_due()
                }
            },
            None => false,
        };
        assert(self@ == with_dissection(before, key, result));
        due
    }

    /// Takes in the guess that `dissected` asked for: it classifies the flow
    /// for good.
    pub fn guessed(&mut self, tuple: &PacketTuple, result: Classification)
        requires
            old(self).wf(),
        ensures
            final(self).wf(),
            final(self)@ == with_guess(old(self)@, flow_key(old(self)@, *tuple), result),
    {
        let ghost before = self@;
        let key = key_for(&self.flows, tuple);
        assert(key == flow_key(before, *tuple));
        proof {
            lemma_classification_keeps_inv(before, key, result);
        }
        match self.flows.get_mut(&key) {
            Some(flow) => {
                if !flow.is_detection_completed() {
                    flow.set_detected_protocol(result);
                }
            },
            None => {},
        }
        assert(self@ == with_guess(before, key, result));
    }

    /// Evicts the flows that are due at `now`, gives up the references that
    /// they held, and then evicts the hosts that are due. Returns the keys of
    /// the evicted flows.
    pub fn purge_idle(&mut self, now: &Timeval) -> (gone: Vec<u128>)
        requires
            old(self).wf(),
        ensures
            final(self).wf(),
            final(self)@ == purged(old(self)@, *now),
            gone@.no_duplicates(),
            forall|k: u128| gone@.contains(k) <==> flows_due(old(self)@, *now).contains(k),
    {
        let ghost before = self@;
        let ghost due = flows_due(before, *now);
        let evicted = self.flows.purge_idle(now);
        let mut gone: Vec<u128> = Vec::new();
        let ghost mut rest = before.flows;
        let mut i: usize = 0;
        while i < evicted.len()
            invariant
                self.hosts.wf(),
                self.hosts.idle_timeout() == HOST_IDLE_TIMEOUT_SEC,
                self.flows.wf(),
                self.flows.idle_timeout() == FLOW_IDLE_TIMEOUT_SEC,
                self.flows@ == before.flows.remove_keys(due),
                inv(before),
                due == flows_due(before, *now),
                lists_entries(evicted@, before.flows, due),
                0 <= i <= evicted.len(),
                rest.dom().finite(),
                forall|k: u128|
                    #![trigger rest.contains_key(k)]
                    rest.contains_key(k) <==> before.flows.contains_key(k) && !has_key(
                        evicted@.take(i as int),
                        k,
                    ),
                forall|k: u128| #[trigger] rest.contains_key(k) ==> rest[k] == before.flows[k],
                forall|ip: u32| #[trigger] refs_of(self.hosts@, ip) == holders(rest, ip),
                self.hosts@.dom() == before.hosts.dom(),
                forall|ip: u32| #[trigger]
                    self.hosts@.contains_key(ip) ==> self.hosts@[ip].with_refs(0)
                        == before.hosts[ip].with_refs(0),
                gone@.len() == i,
                forall|j: int| 0 <= j < i ==> gone@[j] == evicted@[j].0,
            decreases evicted.len() - i,
        {
            let (key, flow) = evicted[i];
            let ghost hosts0 = self.hosts@;
            let ghost seen = evicted@.take(i as int);
            proof {
                assert(evicted@[i as int].0 == key);
                assert(due.contains(key));
                assert(before.flows.contains_key(key));
                assert(!has_key(seen, key)) by {
                    if has_key(seen, key) {
                        let j = choose|j: int| 0 <= j < seen.len() && #[trigger] seen[j].0 == key;
                        assert(evicted@[j].0 == evicted@[i as int].0);
                    }
                }
                assert(rest.contains_key(key));
                assert(rest[key] == flow);
                assert forall|ip: u32| holders(rest, ip) == holders(rest.remove(key), ip) + ends_at(
                    flow,
                    ip,
                ) by {
                    lemma_holders_remove(rest, key, ip);
                }
                assert(refs_of(hosts0, flow.shost) == holders(rest, flow.shost));
                assert(refs_of(hosts0, flow.dhost) == holders(rest, flow.dhost));
            }
            flow.release(&mut self.hosts);
            gone.push(key);
            proof {
                let next = evicted@.take(i + 1);
                assert(next =~= seen.push(evicted@[i as int]));
                assert forall|k: u128| has_key(next, k) <==> has_key(seen, k) || k == key by {
                    if has_key(seen, k) {
                        let j = choose|j: int| 0 <= j < seen.len() && #[trigger] seen[j].0 == k;
                        assert(next[j].0 == k);
                    }
                    if k == key {
                        assert(next[i as int].0 == k);
                    }
                    if has_key(next, k) {
                        let j = choose|j: int| 0 <= j < next.len() && #[trigger] next[j].0 == k;
                        if j < i {
                            assert(seen[j].0 == k);
                        }
                    }
                }
                assert(self.hosts@.dom() =~= hosts0.dom());
                assert forall|ip: u32| #[trigger]
                    refs_of(self.hosts@, ip) == holders(rest.remove(key), ip) by {
                    assert(refs_of(hosts0, ip) == holders(rest, ip));
                }
                assert forall|ip: u32| #[trigger]
                    self.hosts@.contains_key(ip) implies self.hosts@[ip].with_refs(0)
                    == before.hosts[ip].with_refs(0) by {
                    assert(hosts0.contains_key(ip));
                }
                rest = rest.remove(key);
            }
            i = i + 1;
        }
        proof {
            assert(evicted@.take(evicted.len() as int) =~= evicted@);
            assert forall|k: u128| has_key(evicted@, k) <==> due.contains(k) by {
                if has_key(evicted@, k) {
                    let j = choose|j: int| 0 <= j < evicted@.len() && #[trigger] evicted@[j].0 == k;
                    assert(due.contains(evicted@[j].0));
                }
            }
            assert(rest =~= before.flows.remove_keys(due));
            assert(self.hosts@ =~= recounted(before.hosts, rest)) by {
                assert forall|ip: u32| self.hosts@.contains_key(ip) implies self.hosts@[ip]
                    == before.hosts[ip].with_refs(holders(rest, ip) as u32) by {
                    assert(refs_of(self.hosts@, ip) == holders(rest, ip));
                    assert(self.hosts@[ip].with_refs(0) == before.hosts[ip].with_refs(0));
                }
            }
            lemma_purge_keeps_inv(before, *now);
            assert forall|k: u128| gone@.contains(k) <==> due.contains(k) by {
                if gone@.contains(k) {
                    let j = choose|j: int| 0 <= j < gone@.len() && gone@[j] == k;
                    assert(evicted@[j].0 == k);
                }
                if due.contains(k) {
                    let j = choose|j: int| 0 <= j < evicted@.len() && #[trigger] evicted@[j].0 == k;
                    assert(gone@[j] == k);
                }
            }
        }
        let _ = self.hosts.purge_idle(now);
        gone
    }

    /// The flow of the conversation of `tuple`, whichever of its two
    /// directions the tuple shows, if there is one.
    pub fn flow(&self, tuple: &PacketTuple) -> (flow: Option<&Flow>)
        requires
            self.wf(),
        ensures
            match flow {
                Some(f) => self@.flows.contains_key(flow_key(self@, *tuple)) && *f
                    == self@.flows[flow_key(self@, *tuple)],
                None => !self@.flows.contains_key(flow_key(self@, *tuple)),
            },
    {
        let key = key_for(&self.flows, tuple);
        assert(key == flow_key(self@, *tuple));
        self.flows.get(&key)
    }

    /// The host with the address `ip`, if there is one.
    pub fn host(&self, ip: u32) -> (host: Option<&Host>)
        requires
            self.wf(),
        ensures
            match host {
                Some(h) => self@.hosts.contains_key(ip) && *h == self@.hosts[ip],
                None => !self@.hosts.contains_key(ip),
            },
    {
        self.hosts.get(&ip)
    }

    /// The keys of all flows, each once, in no particular order.
    pub fn flow_keys(&self) -> (keys: Vec<u128>)
        requires
            self.wf(),
        ensures
            keys@.no_duplicates(),
            forall|k: u128| keys@.contains(k) <==> self@.flows.contains_key(k),
    {
        self.flows.keys()
    }

    /// The flow stored under `key`, if there is one.
    pub fn flow_at(&self, key: u128) -> (flow: Option<&Flow>)
        requires
            self.wf(),
        ensures
            match flow {
                Some(f) => self@.flows.contains_key(key) && *f == self@.flows[key],
                None => !self@.flows.contains_key(key),
            },
    {
        self.flows.get(&key)
    }
}

} // verus!