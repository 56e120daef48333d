use wotto::registry::Registry;

type R = Registry<i32>;

#[test]
fn test_new() {
    let _ = R::default();
}

#[test]
fn test_insert() {
    let mut m = R::default();
    let entry = m.lock_entry_mut("hello".to_owned());
    assert!(entry.is_none());
    *entry = Some(100);
    assert_eq!(*entry, Some(100));
    let entry = m.lock_entry_mut("hello".to_owned());
    assert!(matches!(*entry, Some(100)));
}

#[test]
fn test_take() {
    let mut m = R::default();
    let entry = m.lock_entry_mut("hello".to_owned());
    *entry = Some(100);
    let old = m.take_entry("hello");
    assert_eq!(old, Some(100));
    let entry = m.lock_entry_mut("hello".to_owned());
    assert!(entry.is_none());
}

#[test]
fn test_contains_key() {
    let mut m = R::default();
    assert!(!m.contains_key("foo"));
    *m.lock_entry_mut("foo".to_string()) = Some(100);
    assert!(m.contains_key("foo"));
    let _ = m.take_entry("foo");
    assert!(!m.contains_key("foo"));
}

#[test]
fn test_grow() {
    let mut m = R::default();
    for i in 0..4 {
        println!("insert {i}...");
        let key = format!("key{i}");
        let entry = m.lock_entry_mut(key);
        assert!(entry.is_none());
    }
    for i in 0..4 {
        println!("get {i}...");
        *m.lock_entry_mut(format!("key{i}")) = Some(i as i32);
    }
    for i in 0..4 {
        assert_eq!(*m.lock_entry_mut(format!("key{i}")), Some(i as i32));
    }
}

#[test]
fn test_wait() {
    let mut m = R::default();

    assert!(
        m.wait_entry("key").is_none(),
        "wait_entry must return immediately when entry does not exist"
    );

    let entry = m.lock_entry_mut("key".to_owned());
    assert!(entry.is_none());

    let slot = m
        .wait_entry("key")
        .expect("wait_entry must return a slot when an entry exists");
    assert!(slot.is_none());
}

#[test]
fn reserved_slot_counts_as_known_and_holds_nothing() {
    let mut m = R::default();
    let _ = m.lock_entry_mut("a".to_owned());
    assert!(m.contains_key("a"));
    assert_eq!(m.wait_entry("a"), Some(&None));
    assert_eq!(m.take_entry("a"), None);
    assert!(!m.contains_key("a"));
    assert_eq!(m.take_entry("a"), None);
}

#[test]
fn slots_do_not_disturb_each_other() {
    let mut m = R::default();
    *m.lock_entry_mut("a".to_owned()) = Some(1);
    *m.lock_entry_mut("b".to_owned()) = Some(2);
    *m.lock_entry_mut("a".to_owned()) = Some(3);
    assert_eq!(m.wait_entry("a"), Some(&Some(3)));
    assert_eq!(m.wait_entry("b"), Some(&Some(2)));
    assert_eq!(m.take_entry("a"), Some(3));
    assert_eq!(m.wait_entry("b"), Some(&Some(2)));
    assert_eq!(m.wait_entry("a"), None);
}
