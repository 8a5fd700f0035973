use flowtrack::generic_hash::{GenericHash, LifetimeItem};
use flowtrack::host::Host;
use flowtrack::managed_ptr::ManagedPtr;
use flowtrack::types::{PacketDir, Timeval};

fn at(sec: i64) -> Timeval {
    Timeval { sec, usec: 0 }
}

fn host(last_octet: u8) -> Host {
    Host::new([10, 0, 0, last_octet], [2, 0, 0, 0, 0, last_octet])
}

fn seen(table: &mut GenericHash<u32, Host>, key: u32, sec: i64) {
    let h = table.or_insert(key, || host(key as u8));
    h.stats.account_packet(at(sec), PacketDir::Src2Dst, 1);
}

#[test]
fn managed_ptr_owns_its_item() {
    let mut p = ManagedPtr::new(Box::new(41u32));
    assert_eq!(*p.get(), 41);
    *p.get_mut() += 1;
    assert_eq!(*p.get(), 42);
    assert_eq!(p.free(), 42);
}

#[test]
fn new_table_is_empty() {
    let table: GenericHash<u32, Host> = GenericHash::new(300);
    assert_eq!(table.len(), 0);
    assert!(table.keys().is_empty());
    assert!(table.get(&1).is_none());
}

#[test]
fn or_insert_builds_only_for_an_absent_key() {
    let mut table: GenericHash<u32, Host> = GenericHash::new(300);
    {
        let h = table.or_insert(7, || host(7));
        assert_eq!(h.ip, [10, 0, 0, 7]);
        h.mac = [9, 9, 9, 9, 9, 9];
    }
    {
        let h = table.or_insert(7, || panic!("the entry is there already"));
        assert_eq!(h.mac, [9, 9, 9, 9, 9, 9]);
    }
    assert_eq!(table.len(), 1);
    assert_eq!(table.get(&7).unwrap().ip, [10, 0, 0, 7]);
    assert_eq!(table.keys(), vec![7]);
}

#[test]
fn get_mut_writes_through() {
    let mut table: GenericHash<u32, Host> = GenericHash::new(300);
    table.or_insert(1, || host(1));
    table.get_mut(&1).unwrap().inc_refs();
    table.get_mut(&1).unwrap().inc_refs();
    assert_eq!(table.get(&1).unwrap().refs, 2);
    assert!(table.get_mut(&2).is_none());
    assert_eq!(table.len(), 1);
}

#[test]
fn reference_counts_go_up_and_down_and_stop_at_zero() {
    let mut h = host(1);
    assert_eq!(*h.get_refs(), 0);
    h.dec_refs();
    assert_eq!(*h.get_refs(), 0);
    h.inc_refs();
    h.inc_refs();
    assert_eq!(*h.get_refs(), 2);
    h.dec_refs();
    assert_eq!(*h.get_refs(), 1);
    h.dec_refs();
    h.dec_refs();
    assert_eq!(*h.get_refs(), 0);
    *h.get_refs() = 9;
    assert_eq!(h.refs, 9);
    assert_eq!(h.get_last_seen(), Timeval::default());
}

#[test]
fn idle_for_exactly_the_timeout_stays() {
    let mut table: GenericHash<u32, Host> = GenericHash::new(300);
    seen(&mut table, 1, 1000);
    let evicted = table.purge_idle(&at(1300));
    assert!(evicted.is_empty());
    assert!(table.get(&1).is_some());
}

#[test]
fn idle_for_longer_than_the_timeout_goes() {
    let mut table: GenericHash<u32, Host> = GenericHash::new(300);
    seen(&mut table, 1, 1000);
    let evicted = table.purge_idle(&at(1301));
    assert_eq!(evicted.len(), 1);
    assert_eq!(evicted[0].0, 1);
    assert_eq!(evicted[0].1.ip, [10, 0, 0, 1]);
    assert_eq!(evicted[0].1.stats.packets(), 1);
    assert!(table.get(&1).is_none());
    assert_eq!(table.len(), 0);
}

#[test]
fn microseconds_do_not_count_towards_idleness() {
    let mut table: GenericHash<u32, Host> = GenericHash::new(300);
    seen(&mut table, 1, 1000);
    let evicted = table.purge_idle(&Timeval { sec: 1300, usec: 999_999 });
    assert!(evicted.is_empty());
}

#[test]
fn referenced_entry_stays_however_idle() {
    let mut table: GenericHash<u32, Host> = GenericHash::new(300);
    seen(&mut table, 1, 1000);
    table.get_mut(&1).unwrap().inc_refs();
    assert!(table.purge_idle(&at(1_000_000)).is_empty());
    assert!(table.purge_idle(&at(i64::MAX)).is_empty());
    assert_eq!(table.get(&1).unwrap().refs, 1);
    table.get_mut(&1).unwrap().dec_refs();
    let evicted = table.purge_idle(&at(1_000_000));
    assert_eq!(evicted.len(), 1);
    assert!(table.get(&1).is_none());
}

#[test]
fn purge_takes_only_what_is_due() {
    let mut table: GenericHash<u32, Host> = GenericHash::new(60);
    seen(&mut table, 1, 100);
    seen(&mut table, 2, 150);
    seen(&mut table, 3, 100);
    seen(&mut table, 4, 10);
    table.get_mut(&3).unwrap().inc_refs();
    let mut evicted: Vec<u32> = table.purge_idle(&at(161)).into_iter().map(|e| e.0).collect();
    evicted.sort();
    assert_eq!(evicted, vec![1, 4]);
    let mut left = table.keys();
    left.sort();
    assert_eq!(left, vec![2, 3]);
    assert_eq!(table.get(&2).unwrap().stats.last_seen, at(150));
    assert_eq!(table.get(&3).unwrap().refs, 1);
}

#[test]
fn purge_far_from_the_epoch_does_not_overflow() {
    let mut table: GenericHash<u32, Host> = GenericHash::new(i64::MAX);
    seen(&mut table, 1, i64::MIN);
    assert_eq!(table.purge_idle(&at(i64::MAX)).len(), 1);
    let mut early: GenericHash<u32, Host> = GenericHash::new(i64::MIN);
    seen(&mut early, 1, i64::MAX);
    assert!(early.purge_idle(&at(i64::MIN)).is_empty());
    let mut negative: GenericHash<u32, Host> = GenericHash::new(-5);
    seen(&mut negative, 1, 100);
    assert!(negative.purge_idle(&at(95)).is_empty());
    assert_eq!(negative.purge_idle(&at(96)).len(), 1);
}
