use escrow::address::Address;
use escrow::store::Store;

fn k(n: u8) -> Address {
    Address { bytes: [n; 32] }
}

#[test]
fn a_new_store_holds_nothing() {
    let s: Store<u64> = Store::new();
    assert_eq!(s.get(&k(1)), None);
    assert!(!s.contains(&k(1)));
}

#[test]
fn put_keeps_a_value_under_its_address() {
    let mut s: Store<u64> = Store::new();
    s.put(k(1), 10);
    s.put(k(2), 20);
    assert_eq!(s.get(&k(1)), Some(10));
    assert_eq!(s.get(&k(2)), Some(20));
    assert_eq!(s.get(&k(3)), None);
    assert!(s.contains(&k(2)));
}

#[test]
fn put_replaces_what_was_there() {
    let mut s: Store<u64> = Store::new();
    s.put(k(1), 10);
    s.put(k(2), 20);
    s.put(k(1), 11);
    assert_eq!(s.get(&k(1)), Some(11));
    assert_eq!(s.get(&k(2)), Some(20));
    assert_eq!(s.remove(&k(1)), Some(11));
    assert_eq!(s.get(&k(1)), None);
}

#[test]
fn remove_takes_out_and_returns() {
    let mut s: Store<u64> = Store::new();
    s.put(k(1), 10);
    s.put(k(2), 20);
    s.put(k(3), 30);
    assert_eq!(s.remove(&k(2)), Some(20));
    assert_eq!(s.remove(&k(2)), None);
    assert_eq!(s.get(&k(1)), Some(10));
    assert_eq!(s.get(&k(2)), None);
    assert_eq!(s.get(&k(3)), Some(30));
}

#[test]
fn keys_that_differ_in_one_byte_are_different() {
    let mut near = [1u8; 32];
    near[17] = 2;
    let mut s: Store<u64> = Store::new();
    s.put(k(1), 10);
    s.put(Address { bytes: near }, 99);
    assert_eq!(s.get(&k(1)), Some(10));
    assert_eq!(s.get(&Address { bytes: near }), Some(99));
}

#[test]
fn a_duplicate_goes_its_own_way() {
    let mut s: Store<u64> = Store::new();
    s.put(k(1), 10);
    s.put(k(2), 20);
    let mut t = s.duplicate();
    t.put(k(1), 11);
    t.remove(&k(2));
    assert_eq!(s.get(&k(1)), Some(10));
    assert_eq!(s.get(&k(2)), Some(20));
    assert_eq!(t.get(&k(1)), Some(11));
    assert_eq!(t.get(&k(2)), None);
}
