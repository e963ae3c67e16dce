use rift::collections::{VecMap, VecSet};
use rift::common::text::{insert_sorted, is_before, join};
use rift::ids::SpaceId;

#[test]
fn maps_bind_each_key_once() {
    let mut m: VecMap<SpaceId, u32> = VecMap::new();
    assert!(m.is_empty());
    m.insert(SpaceId::new(1), 10);
    m.insert(SpaceId::new(2), 20);
    m.insert(SpaceId::new(1), 11);
    assert_eq!(m.len(), 2);
    assert_eq!(m.get(&SpaceId::new(1)), Some(&11));
    assert_eq!(m.remove(&SpaceId::new(2)), Some(20));
    assert_eq!(m.remove(&SpaceId::new(2)), None);
    assert!(!m.contains_key(&SpaceId::new(2)));
}

#[test]
fn rekeying_keeps_the_place() {
    let mut m: VecMap<String, u32> = VecMap::new();
    for (i, k) in ["a", "b", "c"].iter().enumerate() {
        m.insert(k.to_string(), i as u32);
    }
    m.rekey(&"a".to_string(), "c".to_string());
    assert_eq!(m.entries, vec![("c".to_string(), 0), ("b".to_string(), 1)]);
    m.rekey(&"x".to_string(), "y".to_string());
    assert_eq!(m.len(), 2);
}

#[test]
fn sets_hold_each_member_once() {
    let mut s: VecSet<SpaceId> = VecSet::new();
    s.insert(SpaceId::new(1));
    s.insert(SpaceId::new(1));
    s.insert(SpaceId::new(2));
    assert_eq!(s.len(), 2);
    s.remove(&SpaceId::new(1));
    assert!(!s.contains(&SpaceId::new(1)));
    assert!(s.contains(&SpaceId::new(2)));
}

#[test]
fn texts_are_ordered_as_std_orders_them() {
    for (a, b) in [("", "a"), ("a", "ab"), ("ab", "b"), ("Z", "a"), ("z", "\u{e9}"), ("\u{ffff}", "\u{10000}")] {
        assert!(a < b);
        assert!(is_before(&a.to_string(), &b.to_string()));
        assert!(!is_before(&b.to_string(), &a.to_string()));
        assert!(!is_before(&a.to_string(), &a.to_string()));
    }
}

#[test]
fn sorted_insertion_and_joining() {
    let mut v = vec![];
    for t in ["c", "a", "b", "a"] {
        insert_sorted(&mut v, t.to_string());
    }
    assert_eq!(v, vec!["a", "b", "c"]);
    assert_eq!(join(&v, "+"), "a+b+c");
    assert_eq!(join(&vec![], "+"), "");
}
