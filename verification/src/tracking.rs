//! What the tracker keeps, as mathematics: the hosts and flows it holds, how
//! one packet and one purge change them, and what stays true throughout.

use crate::flow::{acquired, Flow};
use crate::frame::{MacAddress, ParsedPacket};
use crate::generic_hash::{expired_in, LifetimeItem};
use crate::host::Host;
use crate::traffic_stats::Accounted;
use crate::types::{ipv4_octets, Classification, L4Proto, PacketDir, PacketTuple, Timeval};
use vstd::prelude::*;
use vstd::set_lib::lemma_len_subset;

verus! {

/// Flows idle for more than this many seconds are evicted.
pub const FLOW_IDLE_TIMEOUT_SEC: i64 = 60;

/// Hosts idle for more than this many seconds are evicted, unless a flow
/// refers to them.
pub const HOST_IDLE_TIMEOUT_SEC: i64 = 300;

/// What the capture knows of a frame: when it was seen, how many of its
/// octets were captured and how many it had on the wire.
#[derive(Clone, Copy, Debug)]
pub struct PacketHeader {
    pub ts: Timeval,
    pub caplen: u32,
    pub len: u32,
}

/// The hosts by address and the flows by the key of their tuple.
#[verifier::ext_equal]
pub struct EngineState {
    pub hosts: Map<u32, Host>,
    pub flows: Map<u128, Flow>,
}

/// The keys of the flows whose source host is `ip`.
pub open spec fn sources(flows: Map<u128, Flow>, ip: u32) -> Set<u128> {
    Set::new(|k: u128| flows.contains_key(k) && flows[k].shost == ip)
}

/// The keys of the flows whose destination host is `ip`.
pub open spec fn dests(flows: Map<u128, Flow>, ip: u32) -> Set<u128> {
    Set::new(|k: u128| flows.contains_key(k) && flows[k].dhost == ip)
}

/// How many references the flows hold on the host `ip`: one for each flow
/// end that the host is.
pub open spec fn holders(flows: Map<u128, Flow>, ip: u32) -> nat {
    sources(flows, ip).len() + dests(flows, ip).len()
}

/// The reference count that the table has for `ip`; none for a host that is
/// not in it.
pub open spec fn refs_of(hosts: Map<u32, Host>, ip: u32) -> nat {
    if hosts.contains_key(ip) { hosts[ip].refs as nat } else { 0 }
}

/// How many ends of `flow` the host `ip` is.
pub open spec fn ends_at(flow: Flow, ip: u32) -> nat {
    (if flow.shost == ip { 1nat } else { 0nat }) + (if flow.dhost == ip { 1nat } else { 0nat })
}

/// A flow is stored under the key of the tuple that it was opened for: its
/// hosts, ports and protocol can be read off the key.
pub open spec fn keyed(key: u128, flow: Flow) -> bool {
    let t = PacketTuple::of_key(key);
    &&& t.key_spec() == key
    &&& flow.shost == t.saddr
    &&& flow.dhost == t.daddr
    &&& flow.sport == t.sport
    &&& flow.dport == t.dport
    &&& flow.l4proto == L4Proto::of(t.proto)
}

/// The key of the same conversation seen from its other end.
pub open spec fn mirror(key: u128) -> u128 {
    PacketTuple::of_key(key).reversed_spec().key_spec()
}

/// What holds of the tracker between any two operations: every host counts
/// exactly the references that the flows hold on it, and a host that a flow
/// refers to is in the table; every host is stored under its address and
/// every flow under the key of its tuple; a conversation has one flow, not
/// one for each direction; and all counters are well-formed.
pub open spec fn inv(s: EngineState) -> bool {
    &&& s.hosts.dom().finite()
    &&& s.flows.dom().finite()
    &&& forall|ip: u32| #[trigger] refs_of(s.hosts, ip) == holders(s.flows, ip)
    &&& forall|ip: u32| #[trigger]
        s.hosts.contains_key(ip) ==> s.hosts[ip].stats.wf() && s.hosts[ip].ip == ipv4_octets(ip)
    &&& forall|k: u128| #[trigger]
        s.flows.contains_key(k) ==> s.flows[k].stats.wf() && keyed(k, s.flows[k]) && (mirror(k)
            == k || !s.flows.contains_key(mirror(k)))
}

/// The tracker that has seen nothing.
pub open spec fn empty_state() -> EngineState {
    EngineState { hosts: Map::empty(), flows: Map::empty() }
}

/// The sets behind `holders` are finite, and no larger than the table.
pub proof fn lemma_holders_finite(flows: Map<u128, Flow>, ip: u32)
    requires
        flows.dom().finite(),
    ensures
        sources(flows, ip).finite(),
        dests(flows, ip).finite(),
{
    lemma_len_subset(sources(flows, ip), flows.dom());
    lemma_len_subset(dests(flows, ip), flows.dom());
}

/// No flows, no references.
pub proof fn lemma_holders_empty(ip: u32)
    ensures
        holders(Map::<u128, Flow>::empty(), ip) == 0,
{
    assert(sources(Map::<u128, Flow>::empty(), ip) =~= Set::empty());
    assert(dests(Map::<u128, Flow>::empty(), ip) =~= Set::empty());
}

/// A new flow adds one reference for each of its ends.
pub proof fn lemma_holders_insert(flows: Map<u128, Flow>, k: u128, flow: Flow, ip: u32)
    requires
        flows.dom().finite(),
        !flows.contains_key(k),
    ensures
        holders(flows.insert(k, flow), ip) == holders(flows, ip) + ends_at(flow, ip),
{
    lemma_holders_finite(flows, ip);
    let after = flows.insert(k, flow);
    if flow.shost == ip {
        assert(sources(after, ip) =~= sources(flows, ip).insert(k));
    } else {
        assert(sources(after, ip) =~= sources(flows, ip));
    }
    if flow.dhost == ip {
        assert(dests(after, ip) =~= dests(flows, ip).insert(k));
    } else {
        assert(dests(after, ip) =~= dests(flows, ip));
    }
}

/// A flow that goes takes its references with it.
pub proof fn lemma_holders_remove(flows: Map<u128, Flow>, k: u128, ip: u32)
    requires
        flows.dom().finite(),
        flows.contains_key(k),
    ensures
        holders(flows, ip) == holders(flows.remove(k), ip) + ends_at(flows[k], ip),
{
    let rest = flows.remove(k);
    lemma_holders_insert(rest, k, flows[k], ip);
    assert(rest.insert(k, flows[k]) =~= flows);
}

/// A flow that changes but keeps its hosts keeps its references.
pub proof fn lemma_holders_update(flows: Map<u128, Flow>, k: u128, flow: Flow, ip: u32)
    requires
        flows.contains_key(k),
        flow.shost == flows[k].shost,
        flow.dhost == flows[k].dhost,
    ensures
        holders(flows.insert(k, flow), ip) == holders(flows, ip),
{
    assert(sources(flows.insert(k, flow), ip) =~= sources(flows, ip));
    assert(dests(flows.insert(k, flow), ip) =~= dests(flows, ip));
}

/// The host table with a host under `ip`: the one it has, or else a fresh
/// one with the hardware address `mac`.
pub open spec fn touched(hosts: Map<u32, Host>, ip: u32, mac: MacAddress) -> Map<u32, Host> {
    if hosts.contains_key(ip) {
        hosts
    } else {
        hosts.insert(ip, Host::fresh(ipv4_octets(ip), mac))
    }
}

/// The host table after the hardware address of the host under `ip` was set
/// to `mac`.
pub open spec fn latched(hosts: Map<u32, Host>, ip: u32, mac: MacAddress) -> Map<u32, Host> {
    if hosts.contains_key(ip) {
        hosts.insert(ip, Host { mac, ..hosts[ip] })
    } else {
        hosts
    }
}

/// The host table after one packet was counted on the host under `ip`.
pub open spec fn counted(
    hosts: Map<u32, Host>,
    ip: u32,
    when: Timeval,
    dir: PacketDir,
    bytes: u32,
) -> Map<u32, Host> {
    if hosts.contains_key(ip) {
        hosts.insert(ip, Host { stats: hosts[ip].stats.accounted(when, dir, bytes), ..hosts[ip] })
    } else {
        hosts
    }
}

/// The reference counts of the hosts of `tuple`, as far as the hosts are in
/// the table, have room for one more flow.
pub open spec fn has_room(hosts: Map<u32, Host>, tuple: PacketTuple) -> bool {
    let twice: int = if tuple.saddr == tuple.daddr { 1 } else { 0 };
    &&& refs_of(hosts, tuple.saddr) + twice < u32::MAX
    &&& refs_of(hosts, tuple.daddr) + twice < u32::MAX
}

/// The key under which the flow of a packet of `tuple` is looked up. A flow
/// stays under the key of the tuple that opened it, and the packets of its
/// other direction carry the reversed tuple: so the flow is sought under the
/// key of the tuple, then under the key of the reversed tuple. Where neither
/// is there, a new flow goes under the key of the tuple.
pub open spec fn flow_key(s: EngineState, tuple: PacketTuple) -> u128 {
    if s.flows.contains_key(tuple.key_spec()) {
        tuple.key_spec()
    } else if s.flows.contains_key(tuple.reversed_spec().key_spec()) {
        tuple.reversed_spec().key_spec()
    } else {
        tuple.key_spec()
    }
}

/// The conversation of `tuple` has a flow already.
pub open spec fn known(s: EngineState, tuple: PacketTuple) -> bool {
    s.flows.contains_key(flow_key(s, tuple))
}

/// A packet of `tuple` is taken in if its flow is there already, or if a
/// flow can be opened for it.
pub open spec fn accepts(s: EngineState, tuple: PacketTuple) -> bool {
    known(s, tuple) || has_room(s.hosts, tuple)
}

/// The flow that a packet of `tuple` belongs to, as it is before the packet
/// is counted.
pub open spec fn flow_before(s: EngineState, tuple: PacketTuple) -> Flow {
    if known(s, tuple) {
        s.flows[flow_key(s, tuple)]
    } else {
        Flow::opened(tuple)
    }
}

/// The flow that a packet belongs to, with the packet counted.
pub open spec fn flow_after(s: EngineState, header: PacketHeader, tuple: PacketTuple) -> Flow {
    let flow = flow_before(s, tuple);
    Flow { stats: flow.stats.accounted(header.ts, flow.direction(tuple), header.len), ..flow }
}

/// The hosts after a packet that is taken in: the source and destination of
/// the packet are there; a new flow holds a reference on each; on the first
/// packet of a flow their hardware addresses are set; the packet is counted
/// on both, in the direction that it has on its flow.
pub open spec fn hosts_after(s: EngineState, header: PacketHeader, p: ParsedPacket) -> Map<
    u32,
    Host,
> {
    let t = p.tuple;
    let flow = flow_before(s, t);
    let dir = flow.direction(t);
    let present = touched(touched(s.hosts, t.saddr, p.src_mac), t.daddr, p.dst_mac);
    let held = if known(s, t) {
        present
    } else {
        acquired(acquired(present, t.saddr), t.daddr)
    };
    let named = if flow.stats.last_seen == Timeval::zero() {
        latched(latched(held, t.saddr, p.src_mac), t.daddr, p.dst_mac)
    } else {
        held
    };
    counted(counted(named, t.saddr, header.ts, dir, header.len), t.daddr, header.ts, dir, header.len)
}

/// The tracker after a packet that is taken in.
pub open spec fn ingested(s: EngineState, header: PacketHeader, p: ParsedPacket) -> EngineState {
    EngineState {
        hosts: hosts_after(s, header, p),
        flows: s.flows.insert(flow_key(s, p.tuple), flow_after(s, header, p.tuple)),
    }
}

/// The tracker after a frame: unchanged where the frame contributes nothing
/// or is not taken in.
pub open spec fn after_packet(s: EngineState, header: PacketHeader, parsed: Option<ParsedPacket>)
    -> EngineState {
    if parsed is Some && accepts(s, parsed->0.tuple) {
        ingested(s, header, parsed->0)
    } else {
        s
    }
}

/// A key whose mirror is the key of `t` is the key of the reversed `t`.
proof fn lemma_mirror_of(k: u128, t: PacketTuple)
    requires
        PacketTuple::of_key(k).key_spec() == k,
        mirror(k) == t.key_spec(),
    ensures
        k == t.reversed_spec().key_spec(),
{
    let u = PacketTuple::of_key(k);
    PacketTuple::lemma_key_injective(u.reversed_spec(), t);
    u.lemma_key_of_reversed();
}

/// The invariant is kept by every packet that is taken in.
pub proof fn lemma_ingest_keeps_inv(s: EngineState, header: PacketHeader, p: ParsedPacket)
    requires
        inv(s),
        accepts(s, p.tuple),
    ensures
        inv(ingested(s, header, p)),
{
    let t = p.tuple;
    let key = flow_key(s, t);
    let after = ingested(s, header, p);
    let flow = flow_before(s, t);
    let dir = flow.direction(t);
    let is_new = !known(s, t);
    let present = touched(touched(s.hosts, t.saddr, p.src_mac), t.daddr, p.dst_mac);
    let held = if is_new { acquired(acquired(present, t.saddr), t.daddr) } else { present };
    let named = if flow.stats.last_seen == Timeval::zero() {
        latched(latched(held, t.saddr, p.src_mac), t.daddr, p.dst_mac)
    } else {
        held
    };
    let half = counted(named, t.saddr, header.ts, dir, header.len);
    assert(present.dom() =~= s.hosts.dom().insert(t.saddr).insert(t.daddr));
    assert(held.dom() =~= present.dom());
    assert(named.dom() =~= present.dom());
    assert(half.dom() =~= present.dom());
    assert(after.hosts.dom() =~= present.dom());
    assert(after.flows.dom() =~= s.flows.dom().insert(key));
    crate::traffic_stats::lemma_account_monotonic(flow.stats, header.ts, dir, header.len);
    t.lemma_of_key();
    assert forall|ip: u32| #[trigger] refs_of(after.hosts, ip) == holders(after.flows, ip) by {
        assert(refs_of(s.hosts, ip) == holders(s.flows, ip));
        assert(refs_of(present, ip) == refs_of(s.hosts, ip));
        assert(refs_of(named, ip) == refs_of(held, ip));
        assert(refs_of(after.hosts, ip) == refs_of(named, ip));
        if is_new {
            lemma_holders_insert(s.flows, key, flow_after(s, header, t), ip);
            assert(refs_of(s.hosts, t.saddr) == holders(s.flows, t.saddr));
            assert(refs_of(s.hosts, t.daddr) == holders(s.flows, t.daddr));
            assert(refs_of(held, ip) == refs_of(present, ip) + ends_at(Flow::opened(t), ip));
        } else {
            lemma_holders_update(s.flows, key, flow_after(s, header, t), ip);
        }
    }
    assert forall|ip: u32| #[trigger] after.hosts.contains_key(ip) implies after.hosts[ip].stats.wf()
        && after.hosts[ip].ip == ipv4_octets(ip) by {
        assert(present.contains_key(ip));
        if s.hosts.contains_key(ip) {
            assert(s.hosts[ip].stats.wf());
        }
        assert(present[ip].stats.wf());
        assert(present[ip].ip == ipv4_octets(ip));
        assert(held[ip].stats == present[ip].stats);
        assert(held[ip].ip == present[ip].ip);
        assert(named[ip].stats == held[ip].stats);
        assert(named[ip].ip == held[ip].ip);
        assert(half[ip].ip == named[ip].ip);
        crate::traffic_stats::lemma_account_monotonic(named[ip].stats, header.ts, dir, header.len);
        crate::traffic_stats::lemma_account_monotonic(half[ip].stats, header.ts, dir, header.len);
    }
    assert forall|k: u128| #[trigger] after.flows.contains_key(k) implies after.flows[k].stats.wf()
        && keyed(k, after.flows[k]) && (mirror(k) == k || !after.flows.contains_key(mirror(k))) by {
        if k != key {
            assert(s.flows.contains_key(k));
            if is_new && mirror(k) == key {
                lemma_mirror_of(k, t);
            }
        } else if !is_new {
            assert(s.flows.contains_key(key));
        }
    }
}

/// The tracker after the outcome `result` of a payload inspection came in
/// for the flow under `key`. It is stored as `Flow::set_protocol` stores it,
/// unless the flow is gone or classified already.
pub open spec fn with_dissection(s: EngineState, key: u128, result: Classification)
    -> EngineState {
    if s.flows.contains_key(key) && !s.flows[key].detection_completed {
        EngineState { flows: s.flows.insert(key, s.flows[key].with_protocol(result)), ..s }
    } else {
        s
    }
}

/// Whether, once `result` is stored, a guess from the tuple is due for the
/// flow under `key`.
pub open spec fn guess_due(s: EngineState, key: u128, result: Classification) -> bool {
    s.flows.contains_key(key) && !s.flows[key].detection_completed && s.flows[key].with_protocol(
        result,
    ).give_up_due()
}

/// The tracker after the guess `result` came in for the flow under `key`.
/// It is stored as `Flow::set_detected_protocol` stores it, unless the flow
/// is gone or classified already.
pub open spec fn with_guess(s: EngineState, key: u128, result: Classification) -> EngineState {
    if s.flows.contains_key(key) && !s.flows[key].detection_completed {
        EngineState { flows: s.flows.insert(key, s.flows[key].with_detected_protocol(result)), ..s }
    } else {
        s
    }
}

/// The keys of the flows that a purge at `now` evicts.
pub open spec fn flows_due(s: EngineState, now: Timeval) -> Set<u128> {
    expired_in(s.flows, now, FLOW_IDLE_TIMEOUT_SEC)
}

/// The same hosts, each with the reference count that `flows` gives it.
pub open spec fn recounted(hosts: Map<u32, Host>, flows: Map<u128, Flow>) -> Map<u32, Host> {
    Map::new(
        |ip: u32| hosts.contains_key(ip),
        |ip: u32| hosts[ip].with_refs(holders(flows, ip) as u32),
    )
}

/// The tracker after a purge at `now`. First the flows go that are due; the
/// references that they held are given up; then the hosts go that are due
/// after that.
pub open spec fn purged(s: EngineState, now: Timeval) -> EngineState {
    let flows = s.flows.remove_keys(flows_due(s, now));
    let hosts = recounted(s.hosts, flows);
    EngineState {
        hosts: hosts.remove_keys(expired_in(hosts, now, HOST_IDLE_TIMEOUT_SEC)),
        flows,
    }
}

/// Fewer flows hold no more references.
pub proof fn lemma_holders_monotonic(flows: Map<u128, Flow>, gone: Set<u128>, ip: u32)
    requires
        flows.dom().finite(),
    ensures
        holders(flows.remove_keys(gone), ip) <= holders(flows, ip),
{
    lemma_holders_finite(flows, ip);
    assert(sources(flows.remove_keys(gone), ip).subset_of(sources(flows, ip)));
    assert(dests(flows.remove_keys(gone), ip).subset_of(dests(flows, ip)));
    lemma_len_subset(sources(flows.remove_keys(gone), ip), sources(flows, ip));
    lemma_len_subset(dests(flows.remove_keys(gone), ip), dests(flows, ip));
}

/// The invariant is kept by classification results.
pub proof fn lemma_classification_keeps_inv(s: EngineState, key: u128, result: Classification)
    requires
        inv(s),
    ensures
        inv(with_dissection(s, key, result)),
        inv(with_guess(s, key, result)),
{
    if s.flows.contains_key(key) && !s.flows[key].detection_completed {
        let a = with_dissection(s, key, result);
        let b = with_guess(s, key, result);
        assert(a.flows.dom() =~= s.flows.dom());
        assert(b.flows.dom() =~= s.flows.dom());
        assert forall|ip: u32| #[trigger] refs_of(a.hosts, ip) == holders(a.flows, ip) by {
            lemma_holders_update(s.flows, key, s.flows[key].with_protocol(result), ip);
            assert(refs_of(s.hosts, ip) == holders(s.flows, ip));
        }
        assert forall|ip: u32| #[trigger] refs_of(b.hosts, ip) == holders(b.flows, ip) by {
            lemma_holders_update(s.flows, key, s.flows[key].with_detected_protocol(result), ip);
            assert(refs_of(s.hosts, ip) == holders(s.flows, ip));
        }
    }
}

/// The invariant is kept by every purge.
pub proof fn lemma_purge_keeps_inv(s: EngineState, now: Timeval)
    requires
        inv(s),
    ensures
        inv(purged(s, now)),
{
    let flows = s.flows.remove_keys(flows_due(s, now));
    let hosts = recounted(s.hosts, flows);
    let after = purged(s, now);
    assert(flows.dom().subset_of(s.flows.dom()));
    lemma_len_subset(flows.dom(), s.flows.dom());
    assert(hosts.dom() =~= s.hosts.dom());
    assert(after.hosts.dom().subset_of(s.hosts.dom()));
    lemma_len_subset(after.hosts.dom(), s.hosts.dom());
    assert forall|ip: u32| #[trigger] refs_of(after.hosts, ip) == holders(after.flows, ip) by {
        lemma_holders_monotonic(s.flows, flows_due(s, now), ip);
        assert(refs_of(s.hosts, ip) == holders(s.flows, ip));
    }
    assert forall|ip: u32| #[trigger] after.hosts.contains_key(ip) implies after.hosts[ip].stats.wf() by {
        assert(s.hosts.contains_key(ip));
    }
    assert forall|k: u128| #[trigger] after.flows.contains_key(k) implies after.flows[k].stats.wf() by {
        assert(s.flows.contains_key(k));
    }
}

/// The tracker after a packet and all that follows from it: the packet is
/// taken in, the outcome `dissected` of the payload inspection is stored if
/// the flow is still unclassified, and the guess `guess` if it is due then.
pub open spec fn after_step(
    s: EngineState,
    header: PacketHeader,
    p: ParsedPacket,
    dissected: Classification,
    guess: Classification,
) -> EngineState {
    let key = flow_key(s, p.tuple);
    let taken = ingested(s, header, p);
    let inspected = with_dissection(taken, key, dissected);
    if guess_due(taken, key, dissected) {
        with_guess(inspected, key, guess)
    } else {
        inspected
    }
}

/// A packet changes one flow, the one of its conversation, and leaves all
/// others alone. What it changes of that flow are its counters: hosts, ports
/// and protocol stay, so the directions are always told by the same port.
/// Once the packet is taken in, its flow is found under the same key again.
pub proof fn lemma_packet_touches_one_flow(
    s: EngineState,
    header: PacketHeader,
    p: ParsedPacket,
    other: u128,
)
    ensures
        ingested(s, header, p).flows.contains_key(flow_key(s, p.tuple)),
        flow_key(ingested(s, header, p), p.tuple) == flow_key(s, p.tuple),
        ingested(s, header, p).flows[flow_key(s, p.tuple)] == (Flow {
            stats: flow_before(s, p.tuple).stats.accounted(
                header.ts,
                flow_before(s, p.tuple).direction(p.tuple),
                header.len,
            ),
            ..flow_before(s, p.tuple)
        }),
        other != flow_key(s, p.tuple) ==> (ingested(s, header, p).flows.contains_key(other)
            <==> s.flows.contains_key(other)),
        other != flow_key(s, p.tuple) && s.flows.contains_key(other) ==> ingested(
            s,
            header,
            p,
        ).flows[other] == s.flows[other],
{
}

/// Both directions of a conversation meet in one flow. Where the flow of a
/// tuple is there, a packet of the reversed tuple opens no flow: it is
/// counted on that flow, and, unless both ports are the same, as a packet
/// from destination to source.
pub proof fn lemma_reply_joins_flow(
    s: EngineState,
    header: PacketHeader,
    reply: ParsedPacket,
    tuple: PacketTuple,
)
    requires
        inv(s),
        s.flows.contains_key(tuple.key_spec()),
        reply.tuple == tuple.reversed_spec(),
    ensures
        flow_key(s, reply.tuple) == tuple.key_spec(),
        accepts(s, reply.tuple),
        ingested(s, header, reply).flows.dom() == s.flows.dom(),
        tuple.sport != tuple.dport ==> ingested(s, header, reply).flows[tuple.key_spec()] == (Flow {
            stats: s.flows[tuple.key_spec()].stats.accounted(
                header.ts,
                PacketDir::Dst2Src,
                header.len,
            ),
            ..s.flows[tuple.key_spec()]
        }),
        tuple.sport == tuple.dport ==> ingested(s, header, reply).flows[tuple.key_spec()] == (Flow {
            stats: s.flows[tuple.key_spec()].stats.accounted(
                header.ts,
                PacketDir::Src2Dst,
                header.len,
            ),
            ..s.flows[tuple.key_spec()]
        }),
{
    let key = tuple.key_spec();
    tuple.lemma_of_key();
    tuple.lemma_key_of_reversed();
    assert(keyed(key, s.flows[key]));
    assert(mirror(key) == reply.tuple.key_spec());
    assert(reply.tuple.reversed_spec() == tuple);
    assert(flow_key(s, reply.tuple) == key);
    assert(ingested(s, header, reply).flows.dom() =~= s.flows.dom());
}

/// What a packet and its classification do to the flow of the packet is
/// what `Flow::counted` and `Flow::classified` say.
pub proof fn lemma_step_on_flow(
    s: EngineState,
    header: PacketHeader,
    p: ParsedPacket,
    dissected: Classification,
    guess: Classification,
)
    ensures
        after_step(s, header, p, dissected, guess).flows.contains_key(flow_key(s, p.tuple)),
        after_step(s, header, p, dissected, guess).flows[flow_key(s, p.tuple)] == flow_before(
            s,
            p.tuple,
        ).counted(
            Accounted {
                when: header.ts,
                dir: flow_before(s, p.tuple).direction(p.tuple),
                bytes: header.len,
            },
        ).classified(dissected, guess),
        after_step(s, header, p, dissected, guess).hosts == ingested(s, header, p).hosts,
{
}

/// A purge never evicts a host that a remaining flow refers to, however
/// long the host has been idle. A host that no remaining flow refers to is
/// evicted as soon as it has been idle for longer than the host timeout,
/// and stays if it has been idle for exactly the timeout or less.
pub proof fn lemma_purge_respects_references(s: EngineState, now: Timeval, ip: u32)
    requires
        inv(s),
        s.hosts.contains_key(ip),
    ensures
        holders(purged(s, now).flows, ip) >= 1 ==> purged(s, now).hosts.contains_key(ip),
        holders(purged(s, now).flows, ip) == 0 && now.sec - s.hosts[ip].stats.last_seen.sec
            > HOST_IDLE_TIMEOUT_SEC ==> !purged(s, now).hosts.contains_key(ip),
        now.sec - s.hosts[ip].stats.last_seen.sec <= HOST_IDLE_TIMEOUT_SEC ==> purged(
            s,
            now,
        ).hosts.contains_key(ip),
        purged(s, now).hosts.contains_key(ip) ==> purged(s, now).hosts[ip] == s.hosts[ip].with_refs(
            holders(purged(s, now).flows, ip) as u32,
        ),
{
    lemma_holders_monotonic(s.flows, flows_due(s, now), ip);
    assert(refs_of(s.hosts, ip) == holders(s.flows, ip));
}

/// A purge evicts a flow exactly if nothing refers to it and it has been
/// idle for longer than the flow timeout; a flow that stays is not changed.
pub proof fn lemma_purge_of_flows(s: EngineState, now: Timeval, key: u128)
    requires
        s.flows.contains_key(key),
    ensures
        purged(s, now).flows.contains_key(key) <==> !(s.flows[key].refs == 0 && now.sec
            - s.flows[key].stats.last_seen.sec > FLOW_IDLE_TIMEOUT_SEC),
        purged(s, now).flows.contains_key(key) ==> purged(s, now).flows[key] == s.flows[key],
{
}

} // verus!