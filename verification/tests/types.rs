use flowtrack::types::{
    ipv4_to_u32, u32_to_ipv4, Classification, L4Proto, PacketDir, PacketTuple, Timeval,
};

fn tuple(proto: u8, saddr: u32, daddr: u32, sport: u16, dport: u16) -> PacketTuple {
    PacketTuple { proto, saddr, daddr, sport, dport }
}

#[test]
fn tuple_is_ok_only_with_all_fields_set() {
    assert!(tuple(6, 1, 2, 1000, 80).ok());
    assert!(!tuple(0, 1, 2, 1000, 80).ok());
    assert!(!tuple(6, 0, 2, 1000, 80).ok());
    assert!(!tuple(6, 1, 0, 1000, 80).ok());
    assert!(!tuple(6, 1, 2, 0, 80).ok());
    assert!(!tuple(6, 1, 2, 1000, 0).ok());
    assert!(!PacketTuple::default().ok());
}

#[test]
fn key_lays_the_fields_side_by_side() {
    let t = tuple(6, 0x0a000001, 0x0a000002, 1000, 80);
    assert_eq!(t.key(), 0x06_0a000001_0a000002_03e8_0050u128);
    assert_eq!(tuple(255, u32::MAX, u32::MAX, u16::MAX, u16::MAX).key(), (1u128 << 104) - 1);
    assert_eq!(PacketTuple::default().key(), 0);
}

#[test]
fn key_tells_tuples_apart() {
    let t = tuple(6, 0x0a000001, 0x0a000002, 1000, 80);
    assert_eq!(t.key(), tuple(6, 0x0a000001, 0x0a000002, 1000, 80).key());
    assert_ne!(t.key(), tuple(17, 0x0a000001, 0x0a000002, 1000, 80).key());
    assert_ne!(t.key(), tuple(6, 0x0a000001, 0x0a000002, 80, 1000).key());
    assert_ne!(t.key(), t.reversed().key());
    let same_both_ways = tuple(17, 0x7f000001, 0x7f000001, 53, 53);
    assert_eq!(same_both_ways.key(), same_both_ways.reversed().key());
}

#[test]
fn reversed_swaps_the_endpoints() {
    let t = tuple(6, 1, 2, 1000, 80);
    assert_eq!(t.reversed(), tuple(6, 2, 1, 80, 1000));
    assert_eq!(t.reversed().reversed(), t);
}

#[test]
fn address_splits_into_octets_most_significant_first() {
    assert_eq!(u32_to_ipv4(0xc0a80101), [192, 168, 1, 1]);
    assert_eq!(u32_to_ipv4(0), [0, 0, 0, 0]);
    assert_eq!(u32_to_ipv4(u32::MAX), [255, 255, 255, 255]);
    assert_eq!(u32_to_ipv4(0x01020304), [1, 2, 3, 4]);
}

#[test]
fn octets_join_to_the_address() {
    assert_eq!(ipv4_to_u32([192, 168, 1, 1]), 0xc0a80101);
    assert_eq!(ipv4_to_u32([255, 255, 255, 255]), u32::MAX);
    for v in [0u32, 1, 255, 256, 0x01020304, 0x7f000001, 0xfffffffe] {
        assert_eq!(ipv4_to_u32(u32_to_ipv4(v)), v);
    }
}

#[test]
fn protocol_numbers_map_to_transport_protocols() {
    assert_eq!(L4Proto::from(1u8), L4Proto::ICMP);
    assert_eq!(L4Proto::from(6u8), L4Proto::TCP);
    assert_eq!(L4Proto::from(17u8), L4Proto::UDP);
    assert_eq!(L4Proto::from(0u8), L4Proto::UNKNOWN);
    assert_eq!(L4Proto::from(47u8), L4Proto::UNKNOWN);
}

#[test]
fn direction_knows_whether_it_is_forward() {
    assert!(PacketDir::Src2Dst.is_src2_dest());
    assert!(!PacketDir::Dst2Src.is_src2_dest());
}

#[test]
fn timeval_differences_are_exact() {
    let a = Timeval { sec: 10, usec: 250_000 };
    let b = Timeval { sec: 12, usec: 100_000 };
    assert_eq!(b.micros_since(a), 1_850_000);
    assert_eq!(a.micros_since(b), -1_850_000);
    assert_eq!(b.seconds_since(a), 2);
    let lo = Timeval { sec: i64::MIN, usec: i64::MIN };
    let hi = Timeval { sec: i64::MAX, usec: i64::MAX };
    assert_eq!(hi.seconds_since(lo), (1i128 << 64) - 1);
    assert_eq!(hi.micros_since(lo), ((1i128 << 64) - 1) * 1_000_001);
    assert!(Timeval::default().is_zero());
    assert!(!a.is_zero());
    assert!(!Timeval { sec: 0, usec: 1 }.is_zero());
}

#[test]
fn classification_is_definitive_with_an_application_protocol() {
    assert!(!Classification::default().is_definitive());
    assert!(!Classification { master_protocol: 7, app_protocol: 0 }.is_definitive());
    assert!(Classification { master_protocol: 0, app_protocol: 5 }.is_definitive());
}
