use titan_ipoverlay_client::sessions::SessionTable;

#[test]
fn registered_session_is_found_until_closed() {
    let mut t: SessionTable<u32> = SessionTable::new();
    let a = "s1".to_string();
    let b = "s2".to_string();
    assert!(!t.contains(&a));
    assert_eq!(t.get(&a), None);
    assert_eq!(t.insert(a.clone(), 7), None);
    assert_eq!(t.insert(b.clone(), 8), None);
    assert!(t.contains(&a));
    assert_eq!(t.get(&a), Some(&7));
    assert_eq!(t.len(), 2);
    assert_eq!(t.remove(&a), Some(7));
    assert!(!t.contains(&a));
    assert_eq!(t.get(&a), None);
    assert_eq!(t.get(&b), Some(&8));
    assert_eq!(t.remove(&a), None);
    assert_eq!(t.len(), 1);
}

#[test]
fn registering_again_replaces_the_value() {
    let mut t: SessionTable<&str> = SessionTable::new();
    let a = "s".to_string();
    assert_eq!(t.insert(a.clone(), "old"), None);
    assert_eq!(t.insert(a.clone(), "new"), Some("old"));
    assert_eq!(t.len(), 1);
    assert_eq!(t.get(&a), Some(&"new"));
}

#[test]
fn drain_empties_the_table() {
    let mut t: SessionTable<u8> = SessionTable::new();
    t.insert("x".to_string(), 1);
    t.insert("y".to_string(), 2);
    let mut ids = t.ids();
    ids.sort();
    assert_eq!(ids, vec!["x".to_string(), "y".to_string()]);
    let mut all = t.drain();
    all.sort();
    assert_eq!(all, vec![("x".to_string(), 1), ("y".to_string(), 2)]);
    assert_eq!(t.len(), 0);
    assert!(!t.contains(&"x".to_string()));
}
