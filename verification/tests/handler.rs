use etherparse::PacketBuilder;
use flowtrack::frame::ParsedPacket;
use flowtrack::packet_handler::{PacketHandler, Verdict};
use flowtrack::tracking::{PacketHeader, FLOW_IDLE_TIMEOUT_SEC, HOST_IDLE_TIMEOUT_SEC};
use flowtrack::types::{Classification, L4Proto, PacketDir, PacketTuple, Timeval};

const A: [u8; 4] = [10, 0, 0, 1];
const B: [u8; 4] = [10, 0, 0, 2];
const C: [u8; 4] = [10, 0, 0, 3];
const A_NUM: u32 = 0x0a000001;
const B_NUM: u32 = 0x0a000002;
const C_NUM: u32 = 0x0a000003;
const MAC_A: [u8; 6] = [2, 0, 0, 0, 0, 1];
const MAC_B: [u8; 6] = [2, 0, 0, 0, 0, 2];

fn frame(src: [u8; 4], dst: [u8; 4], sport: u16, dport: u16, mac_src: [u8; 6], mac_dst: [u8; 6]) -> Vec<u8> {
    let builder = PacketBuilder::ethernet2(mac_src, mac_dst).ipv4(src, dst, 64).tcp(sport, dport, 1, 1024);
    let mut frame = Vec::new();
    builder.write(&mut frame, &[0; 10]).unwrap();
    frame
}

fn a_to_b() -> Vec<u8> {
    frame(A, B, 1000, 80, MAC_A, MAC_B)
}

fn header(sec: i64, len: u32) -> PacketHeader {
    PacketHeader { ts: Timeval { sec, usec: 0 }, caplen: len, len }
}

fn at(sec: i64) -> Timeval {
    Timeval { sec, usec: 0 }
}

fn tuple_ab() -> PacketTuple {
    PacketTuple { proto: 6, saddr: A_NUM, daddr: B_NUM, sport: 1000, dport: 80 }
}

fn unknown() -> Classification {
    Classification::default()
}

fn guess() -> Classification {
    Classification { master_protocol: 0, app_protocol: 7 }
}

#[test]
fn timeouts_are_one_and_five_minutes() {
    assert_eq!(FLOW_IDLE_TIMEOUT_SEC, 60);
    assert_eq!(HOST_IDLE_TIMEOUT_SEC, 300);
}

#[test]
fn new_handler_tracks_nothing() {
    let handler = PacketHandler::new();
    assert!(handler.flow_keys().is_empty());
    assert!(handler.flow(&tuple_ab()).is_none());
    assert!(handler.host(A_NUM).is_none());
}

#[test]
fn first_packet_creates_hosts_and_flow() {
    let mut handler = PacketHandler::new();
    let verdict = handler.process_packet(&header(100, 100), &a_to_b());
    match verdict {
        Verdict::Dissect { key, tuple, dir, ip_offset } => {
            assert_eq!(key, tuple_ab().key());
            assert_eq!(tuple, tuple_ab());
            assert_eq!(dir, PacketDir::Src2Dst);
            assert_eq!(ip_offset, 14);
        },
        other => panic!("unexpected verdict {:?}", other),
    }
    let flow = *handler.flow(&tuple_ab()).unwrap();
    assert_eq!(flow.l4proto, L4Proto::TCP);
    assert_eq!((flow.shost, flow.dhost, flow.sport, flow.dport), (A_NUM, B_NUM, 1000, 80));
    assert!(!flow.just_created());
    assert_eq!(flow.stats.src2dst_pkts, 1);
    assert_eq!(flow.stats.src2dst_bytes, 100);
    assert_eq!(flow.stats.dst2src_bytes, 0);
    assert_eq!(flow.stats.last_seen, at(100));
    let a = *handler.host(A_NUM).unwrap();
    let b = *handler.host(B_NUM).unwrap();
    assert_eq!((a.ip, a.mac, a.refs), (A, MAC_A, 1));
    assert_eq!((b.ip, b.mac, b.refs), (B, MAC_B, 1));
    assert_eq!(a.stats.src2dst_bytes, 100);
    assert_eq!(b.stats.src2dst_bytes, 100);
    assert_eq!(a.stats.packets(), 1);
    assert_eq!(handler.flow_keys(), vec![tuple_ab().key()]);
    assert_eq!(handler.flow_at(tuple_ab().key()).unwrap().sport, 1000);
}

#[test]
fn second_packet_of_the_tuple_joins_the_flow() {
    let mut handler = PacketHandler::new();
    handler.process_packet(&header(100, 100), &a_to_b());
    handler.process_packet(&header(101, 200), &a_to_b());
    assert_eq!(handler.flow_keys().len(), 1);
    let flow = *handler.flow(&tuple_ab()).unwrap();
    assert_eq!(flow.stats.packets(), 2);
    assert_eq!(flow.stats.bytes(), 300);
    assert_eq!(handler.host(A_NUM).unwrap().refs, 1);
    assert_eq!(handler.host(A_NUM).unwrap().stats.bytes(), 300);
    assert_eq!(handler.host(B_NUM).unwrap().stats.packets(), 2);
}

#[test]
fn reply_is_counted_on_the_same_flow_the_other_way() {
    let mut handler = PacketHandler::new();
    handler.process_packet(&header(100, 100), &a_to_b());
    assert!(handler.flow(&tuple_ab()).unwrap().stats.src2dst_bytes == 100);
    let verdict = handler.process_packet(&header(101, 200), &frame(B, A, 80, 1000, MAC_B, MAC_A));
    match verdict {
        Verdict::Dissect { key, tuple, dir, ip_offset } => {
            assert_eq!(key, tuple_ab().key());
            assert_eq!(tuple, tuple_ab().reversed());
            assert_eq!(dir, PacketDir::Dst2Src);
            assert_eq!(ip_offset, 14);
        },
        other => panic!("unexpected verdict {:?}", other),
    }
    assert_eq!(handler.flow_keys(), vec![tuple_ab().key()]);
    assert!(handler.flow_at(tuple_ab().reversed().key()).is_none());
    let flow = *handler.flow(&tuple_ab()).unwrap();
    assert_eq!((flow.shost, flow.dhost, flow.sport, flow.dport), (A_NUM, B_NUM, 1000, 80));
    assert_eq!(flow.stats.src2dst_pkts, 1);
    assert_eq!(flow.stats.src2dst_bytes, 100);
    assert_eq!(flow.stats.dst2src_pkts, 1);
    assert_eq!(flow.stats.dst2src_bytes, 200);
    assert_eq!(flow.stats.packets(), 2);
    assert_eq!(flow.stats.bytes(), 300);
    assert_eq!(flow.stats.last_seen, at(101));
    assert_eq!(handler.flow(&tuple_ab().reversed()).unwrap().stats.bytes(), 300);
    let a = *handler.host(A_NUM).unwrap();
    let b = *handler.host(B_NUM).unwrap();
    assert_eq!((a.refs, b.refs), (1, 1));
    assert_eq!((a.mac, b.mac), (MAC_A, MAC_B));
    assert_eq!((a.stats.src2dst_bytes, a.stats.dst2src_bytes), (100, 200));
    assert_eq!((b.stats.src2dst_bytes, b.stats.dst2src_bytes), (100, 200));
    assert!(handler.host(C_NUM).is_none());
}

#[test]
fn reply_that_comes_first_opens_the_flow() {
    let mut handler = PacketHandler::new();
    handler.process_packet(&header(100, 200), &frame(B, A, 80, 1000, MAC_B, MAC_A));
    handler.process_packet(&header(101, 100), &a_to_b());
    assert_eq!(handler.flow_keys(), vec![tuple_ab().reversed().key()]);
    let flow = *handler.flow(&tuple_ab()).unwrap();
    assert_eq!((flow.shost, flow.sport), (B_NUM, 80));
    assert_eq!(flow.stats.src2dst_bytes, 200);
    assert_eq!(flow.stats.dst2src_bytes, 100);
}

#[test]
fn reply_with_equal_ports_counts_as_forward() {
    let mut handler = PacketHandler::new();
    handler.process_packet(&header(100, 100), &frame(A, B, 53, 53, MAC_A, MAC_B));
    let verdict = handler.process_packet(&header(101, 200), &frame(B, A, 53, 53, MAC_B, MAC_A));
    assert!(matches!(verdict, Verdict::Dissect { dir: PacketDir::Src2Dst, .. }));
    assert_eq!(handler.flow_keys().len(), 1);
    let key = handler.flow_keys()[0];
    let flow = *handler.flow_at(key).unwrap();
    assert_eq!(flow.stats.src2dst_bytes, 300);
    assert_eq!(flow.stats.dst2src_bytes, 0);
}

#[test]
fn other_conversations_get_flows_of_their_own() {
    let mut handler = PacketHandler::new();
    handler.process_packet(&header(100, 100), &a_to_b());
    handler.process_packet(&header(101, 200), &frame(B, A, 81, 1000, MAC_B, MAC_A));
    handler.process_packet(&header(102, 300), &frame(A, B, 80, 1000, MAC_A, MAC_B));
    assert_eq!(handler.flow_keys().len(), 3);
    assert_eq!(handler.flow(&tuple_ab()).unwrap().stats.bytes(), 100);
    assert_eq!(handler.host(A_NUM).unwrap().refs, 3);
    assert_eq!(handler.host(B_NUM).unwrap().refs, 3);
    assert_eq!(handler.host(A_NUM).unwrap().stats.bytes(), 600);
}

#[test]
fn classification_results_reach_the_flow_from_both_directions() {
    let mut handler = PacketHandler::new();
    handler.process_packet(&header(100, 100), &a_to_b());
    let http = Classification { master_protocol: 0, app_protocol: 7 };
    assert!(!handler.dissected(&tuple_ab().reversed(), http));
    assert!(handler.flow(&tuple_ab()).unwrap().is_detection_completed());
    assert_eq!(handler.flow(&tuple_ab()).unwrap().protocol, http);
    let verdict = handler.process_packet(&header(101, 200), &frame(B, A, 80, 1000, MAC_B, MAC_A));
    assert!(matches!(verdict, Verdict::Classified { .. }));
    assert_eq!(handler.flow_keys().len(), 1);
    let mut other = PacketHandler::new();
    for i in 1..=8 {
        let f = if i % 2 == 0 { frame(B, A, 80, 1000, MAC_B, MAC_A) } else { a_to_b() };
        other.process_packet(&header(100 + i, 60), &f);
    }
    assert!(other.dissected(&tuple_ab().reversed(), unknown()));
    other.guessed(&tuple_ab().reversed(), guess());
    assert_eq!(other.flow(&tuple_ab()).unwrap().protocol, guess());
    assert_eq!(other.flow(&tuple_ab()).unwrap().stats.dst2src_pkts, 4);
}

#[test]
fn hardware_addresses_are_set_on_the_first_packet_only() {
    let mut handler = PacketHandler::new();
    handler.process_packet(&header(100, 60), &a_to_b());
    handler.process_packet(&header(101, 60), &frame(A, B, 1000, 80, [9; 6], [8; 6]));
    assert_eq!(handler.host(A_NUM).unwrap().mac, MAC_A);
    assert_eq!(handler.host(B_NUM).unwrap().mac, MAC_B);
    handler.process_packet(&header(102, 60), &frame(A, C, 1000, 80, [9; 6], [8; 6]));
    assert_eq!(handler.host(A_NUM).unwrap().mac, [9; 6]);
    assert_eq!(handler.host(C_NUM).unwrap().mac, [8; 6]);
    assert_eq!(handler.host(A_NUM).unwrap().refs, 2);
}

#[test]
fn flow_between_one_host_counts_the_packet_twice_on_it() {
    let mut handler = PacketHandler::new();
    handler.process_packet(&header(100, 50), &frame(A, A, 1000, 80, MAC_A, MAC_A));
    let a = *handler.host(A_NUM).unwrap();
    assert_eq!(a.refs, 2);
    assert_eq!(a.stats.packets(), 2);
    assert_eq!(a.stats.bytes(), 100);
}

#[test]
fn frames_without_tuple_touch_nothing() {
    let mut handler = PacketHandler::new();
    assert!(matches!(handler.process_packet(&header(1, 10), &[0; 10]), Verdict::Dropped));
    assert!(matches!(handler.process_packet(&header(1, 10), &frame(A, B, 0, 80, MAC_A, MAC_B)), Verdict::Dropped));
    assert!(matches!(handler.process_parsed(&header(1, 10), &None), Verdict::Dropped));
    assert!(handler.flow_keys().is_empty());
    assert!(handler.host(A_NUM).is_none());
    assert!(handler.host(B_NUM).is_none());
}

#[test]
fn definitive_inspection_classifies_the_flow() {
    let mut handler = PacketHandler::new();
    handler.process_packet(&header(100, 60), &a_to_b());
    assert!(!handler.dissected(&tuple_ab(), unknown()));
    assert!(!handler.flow(&tuple_ab()).unwrap().is_detection_completed());
    handler.process_packet(&header(101, 60), &a_to_b());
    let http = Classification { master_protocol: 0, app_protocol: 7 };
    assert!(!handler.dissected(&tuple_ab(), http));
    let flow = *handler.flow(&tuple_ab()).unwrap();
    assert!(flow.is_detection_completed());
    assert_eq!(flow.protocol, http);
    assert!(matches!(handler.process_packet(&header(102, 60), &a_to_b()), Verdict::Classified { .. }));
    assert!(!handler.dissected(&tuple_ab(), unknown()));
    handler.guessed(&tuple_ab(), unknown());
    assert_eq!(handler.flow(&tuple_ab()).unwrap().protocol, http);
    assert!(handler.flow(&tuple_ab()).unwrap().is_detection_completed());
}

#[test]
fn eighth_packet_without_result_is_classified_by_the_guess() {
    let mut handler = PacketHandler::new();
    for i in 1..=7 {
        let verdict = handler.process_packet(&header(100 + i, 60), &a_to_b());
        assert!(matches!(verdict, Verdict::Dissect { .. }));
        assert!(!handler.dissected(&tuple_ab(), unknown()));
        assert!(!handler.flow(&tuple_ab()).unwrap().is_detection_completed());
    }
    let verdict = handler.process_packet(&header(108, 60), &a_to_b());
    assert!(matches!(verdict, Verdict::Dissect { .. }));
    assert!(handler.dissected(&tuple_ab(), unknown()));
    handler.guessed(&tuple_ab(), guess());
    let flow = *handler.flow(&tuple_ab()).unwrap();
    assert!(flow.is_detection_completed());
    assert_eq!(flow.protocol, guess());
    assert_eq!(flow.stats.packets(), 8);
    let ninth = handler.process_packet(&header(109, 60), &a_to_b());
    assert!(matches!(ninth, Verdict::Classified { .. }));
    assert_eq!(handler.flow(&tuple_ab()).unwrap().protocol, guess());
    assert_eq!(handler.flow(&tuple_ab()).unwrap().stats.packets(), 9);
}

#[test]
fn undecided_guess_still_ends_the_detection() {
    let mut handler = PacketHandler::new();
    for i in 1..=8 {
        handler.process_packet(&header(100 + i, 60), &a_to_b());
    }
    assert!(handler.dissected(&tuple_ab(), unknown()));
    handler.guessed(&tuple_ab(), unknown());
    assert!(handler.flow(&tuple_ab()).unwrap().is_detection_completed());
    assert!(matches!(handler.process_packet(&header(110, 60), &a_to_b()), Verdict::Classified { .. }));
}

#[test]
fn results_for_unknown_flows_are_ignored() {
    let mut handler = PacketHandler::new();
    assert!(!handler.dissected(&tuple_ab(), guess()));
    handler.guessed(&tuple_ab(), guess());
    assert!(handler.flow_keys().is_empty());
    assert!(handler.host(A_NUM).is_none());
}

#[test]
fn idle_flow_goes_and_frees_its_hosts() {
    let mut handler = PacketHandler::new();
    handler.process_packet(&header(1000, 60), &a_to_b());
    assert!(handler.purge_idle(&at(1060)).is_empty());
    assert!(handler.flow(&tuple_ab()).is_some());
    assert_eq!(handler.purge_idle(&at(1061)), vec![tuple_ab().key()]);
    assert!(handler.flow(&tuple_ab()).is_none());
    assert_eq!(handler.host(A_NUM).unwrap().refs, 0);
    assert_eq!(handler.host(B_NUM).unwrap().refs, 0);
    assert_eq!(handler.host(A_NUM).unwrap().stats.packets(), 1);
    assert!(handler.purge_idle(&at(1300)).is_empty());
    assert!(handler.host(A_NUM).is_some());
    handler.purge_idle(&at(1301));
    assert!(handler.host(A_NUM).is_none());
    assert!(handler.host(B_NUM).is_none());
}

#[test]
fn flows_and_their_hosts_go_in_one_pass() {
    let mut handler = PacketHandler::new();
    handler.process_packet(&header(1000, 60), &a_to_b());
    assert_eq!(handler.purge_idle(&at(2000)).len(), 1);
    assert!(handler.flow_keys().is_empty());
    assert!(handler.host(A_NUM).is_none());
    assert!(handler.host(B_NUM).is_none());
}

#[test]
fn host_with_a_live_flow_stays_however_idle() {
    let mut handler = PacketHandler::new();
    handler.process_packet(&header(1000, 60), &a_to_b());
    handler.process_packet(&header(1000, 60), &frame(A, C, 1000, 80, MAC_A, MAC_B));
    let ab = tuple_ab();
    let ac = PacketTuple { daddr: C_NUM, ..ab };
    for sec in [5000, 5030, 5059] {
        handler.process_packet(&header(sec, 60), &frame(A, C, 1000, 80, MAC_A, MAC_B));
    }
    let b_before = *handler.host(B_NUM).unwrap();
    assert_eq!(handler.purge_idle(&at(5060)), vec![ab.key()]);
    assert!(handler.flow(&ac).is_some());
    assert_eq!(handler.host(A_NUM).unwrap().refs, 1);
    assert_eq!(handler.host(C_NUM).unwrap().refs, 1);
    assert!(handler.host(B_NUM).is_none());
    assert_eq!(b_before.refs, 1);
    let mut idle = PacketHandler::new();
    idle.process_packet(&header(1000, 60), &a_to_b());
    idle.process_packet(&header(1000, 60), &frame(C, A, 1, 2, MAC_B, MAC_A));
    idle.process_packet(&header(9000, 60), &a_to_b());
    let c_flow = PacketTuple { proto: 6, saddr: C_NUM, daddr: A_NUM, sport: 1, dport: 2 };
    assert_eq!(idle.purge_idle(&at(9001)), vec![c_flow.key()]);
    assert!(idle.host(C_NUM).is_none());
    assert_eq!(idle.host(A_NUM).unwrap().refs, 1);
    assert_eq!(idle.host(B_NUM).unwrap().refs, 1);
    assert_eq!(idle.host(B_NUM).unwrap().stats.last_seen, at(9000));
}

#[test]
fn referenced_host_outlives_its_own_idleness() {
    let mut handler = PacketHandler::new();
    let to_b = ParsedPacket { tuple: tuple_ab(), src_mac: MAC_A, dst_mac: MAC_B, ip_offset: 14 };
    handler.process_parsed(&header(0, 60), &Some(to_b));
    handler.process_parsed(&header(0, 60), &Some(to_b));
    assert!(handler.flow(&tuple_ab()).unwrap().just_created());
    handler.process_parsed(&header(10_000, 60), &Some(to_b));
    assert!(handler.purge_idle(&at(10_050)).is_empty());
    assert_eq!(handler.host(A_NUM).unwrap().refs, 1);
    assert_eq!(handler.host(A_NUM).unwrap().stats.packets(), 3);
}
