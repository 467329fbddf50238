use whitenoise::keyed::KeyedMap;

#[test]
fn insert_then_get_gives_the_value() {
    let mut m: KeyedMap<String, i64> = KeyedMap::new();
    m.insert("a".to_string(), 1);
    m.insert("b".to_string(), 2);
    assert_eq!(m.get(&"a".to_string()), Some(&1));
    assert_eq!(m.get(&"b".to_string()), Some(&2));
    assert_eq!(m.get(&"c".to_string()), None);
    assert_eq!(m.len(), 2);
}

#[test]
fn insert_existing_key_replaces_value_in_place() {
    let mut m: KeyedMap<i64, &str> = KeyedMap::new();
    m.insert(5, "five");
    m.insert(7, "seven");
    m.insert(5, "FIVE");
    assert_eq!(m.len(), 2);
    assert_eq!(m.as_vec(), &vec![(5, "FIVE"), (7, "seven")]);
    assert_eq!(m.position(&7), Some(1));
    assert!(m.contains_key(&5));
    assert!(!m.contains_key(&6));
}

#[test]
fn other_keys_are_untouched_by_insert() {
    let mut m: KeyedMap<bool, u32> = KeyedMap::new();
    m.insert(true, 1);
    m.insert(false, 2);
    m.insert(true, 3);
    assert_eq!(m.get(&false), Some(&2));
    assert_eq!(m.get(&true), Some(&3));
    assert_eq!(m.into_vec(), vec![(true, 3), (false, 2)]);
}
