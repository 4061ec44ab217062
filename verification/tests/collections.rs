use rusk::collections::StringMap;

#[test]
fn insert_get_and_order() {
    let mut map: StringMap<u32> = StringMap::new();
    assert!(map.is_empty());
    map.insert("b".to_string(), 2);
    map.insert("a".to_string(), 1);
    map.insert("b".to_string(), 3);
    assert_eq!(map.len(), 2);
    assert_eq!(map.get("a"), Some(&1));
    assert_eq!(map.get("b"), Some(&3));
    assert_eq!(map.get("c"), None);
    assert_eq!(map.key_at(0), "b");
    assert_eq!(map.key_at(1), "a");
    assert_eq!(*map.value_at(0), 3);
    assert_eq!(map.position("a"), Some(1));
    assert_eq!(map.position("zz"), None);
    assert!(map.contains_key("a"));
    assert!(!map.contains_key("A"));
}

#[test]
fn remove_keeps_the_order_of_the_rest() {
    let mut map: StringMap<u32> = StringMap::new();
    map.insert("x".to_string(), 1);
    map.insert("y".to_string(), 2);
    map.insert("z".to_string(), 3);
    assert_eq!(map.remove("y"), Some(2));
    assert_eq!(map.remove("y"), None);
    assert_eq!(map.len(), 2);
    assert_eq!(map.key_at(0), "x");
    assert_eq!(map.key_at(1), "z");
}

#[test]
fn clone_and_into_entries() {
    let mut map: StringMap<String> = StringMap::new();
    map.insert("k1".to_string(), "v1".to_string());
    map.insert("k2".to_string(), "v2".to_string());
    let copy = map.clone();
    assert_eq!(copy.get("k1"), Some(&"v1".to_string()));
    let entries = map.into_entries();
    assert_eq!(
        entries,
        vec![
            ("k1".to_string(), "v1".to_string()),
            ("k2".to_string(), "v2".to_string())
        ]
    );
    assert_eq!(copy.len(), 2);
}
