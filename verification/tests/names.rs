use deadpy::names::NameSet;

#[test]
fn name_set_insert_and_lookup() {
    let mut s = NameSet::new();
    assert!(s.is_empty());
    assert!(s.insert("a".to_string()));
    assert!(!s.insert("a".to_string()));
    assert!(s.insert("b".to_string()));
    assert_eq!(s.len(), 2);
    assert!(s.contains("a") && s.contains("b") && !s.contains("c"));
    assert_eq!(s.entry(1), "b");
    let mut t = NameSet::new();
    t.insert("c".to_string());
    t.insert("a".to_string());
    s.extend_from(&t);
    assert_eq!(s.len(), 3);
    assert!(s.contains("c"));
}
