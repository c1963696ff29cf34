use orchestrator::utils::keyed_map::KeyedMap;

#[test]
fn read_after_write() {
    let mut m: KeyedMap<i32> = KeyedMap::new();
    assert!(m.is_empty());
    assert_eq!(m.insert("a".to_string(), 1), None);
    assert_eq!(m.insert("b".to_string(), 2), None);
    assert_eq!(m.get(&"a".to_string()), Some(&1));
    assert_eq!(m.insert("a".to_string(), 3), Some(1));
    assert_eq!(m.get(&"a".to_string()), Some(&3));
    assert!(m.contains_key(&"b".to_string()));
    assert!(!m.contains_key(&"c".to_string()));
    assert!(!m.is_empty());
}

#[test]
fn remove_and_views() {
    let mut m: KeyedMap<i32> = KeyedMap::new();
    m.insert("a".to_string(), 1);
    m.insert("b".to_string(), 2);
    let mut keys = m.keys();
    keys.sort();
    assert_eq!(keys, vec!["a".to_string(), "b".to_string()]);
    let (k, v) = m.any_entry().unwrap();
    assert_eq!(m.get(k), Some(v));
    assert_eq!(m.remove(&"a".to_string()), Some(1));
    assert_eq!(m.remove(&"a".to_string()), None);
    assert_eq!(m.get(&"a".to_string()), None);
    let mut values = m.into_values();
    values.sort();
    assert_eq!(values, vec![2]);
    let e: KeyedMap<i32> = KeyedMap::new();
    assert!(e.any_entry().is_none());
}
