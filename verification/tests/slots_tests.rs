use lineserver::slots::Slots;

#[test]
fn fresh_table_is_empty() {
    let s = Slots::new();
    assert_eq!(s.slot_count(), 0);
    assert!(!s.contains(0));
    assert_eq!(s.get(0), None);
}

#[test]
fn insert_assigns_increasing_ids_when_full() {
    let mut s = Slots::new();
    assert_eq!(s.insert(10), 0);
    assert_eq!(s.insert(20), 1);
    assert_eq!(s.insert(30), 2);
    assert_eq!(s.get(0), Some(10));
    assert_eq!(s.get(1), Some(20));
    assert_eq!(s.get(2), Some(30));
}

#[test]
fn insert_takes_smallest_vacant_id() {
    let mut s = Slots::new();
    s.insert(10);
    s.insert(20);
    s.insert(30);
    assert_eq!(s.remove(1), 20);
    assert_eq!(s.remove(0), 10);
    // both 0 and 1 are vacant; the smaller one is assigned first
    assert_eq!(s.insert(40), 0);
    assert_eq!(s.insert(50), 1);
    assert_eq!(s.insert(60), 3);
}

#[test]
fn freed_id_is_reusable_and_never_doubled() {
    let mut s = Slots::new();
    let a = s.insert(1);
    let b = s.insert(2);
    assert_ne!(a, b);
    s.remove(a);
    assert!(!s.contains(a));
    assert!(s.contains(b));
    let c = s.insert(3);
    assert_eq!(c, a);
    // while an id is live, a new insert never lands on it
    let d = s.insert(4);
    assert_ne!(d, b);
    assert_ne!(d, c);
}
