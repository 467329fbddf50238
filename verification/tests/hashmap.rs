use whitenoise::hashmap::Hashmap;
use whitenoise::keyed::KeyedMap;

fn sample() -> Hashmap<i64> {
    let mut m: KeyedMap<String, i64> = KeyedMap::new();
    m.insert("x".to_string(), 10);
    m.insert("y".to_string(), 20);
    m.insert("z".to_string(), 30);
    Hashmap::Str(m)
}

#[test]
fn keys_length_counts_the_keys() {
    assert_eq!(sample().keys_length(), 3);
    let empty: Hashmap<i64> = Hashmap::Bool(KeyedMap::new());
    assert_eq!(empty.keys_length(), 0);
}

#[test]
fn values_in_entry_order() {
    let h = sample();
    assert_eq!(h.values(), vec![&10, &20, &30]);
}

#[test]
fn from_values_pairs_keys_with_values() {
    let h = sample();
    let r = h.from_values(vec![1, 2, 3]);
    match r {
        Hashmap::Str(m) => assert_eq!(
            m.into_vec(),
            vec![("x".to_string(), 1), ("y".to_string(), 2), ("z".to_string(), 3)]
        ),
        _ => panic!("key type changed"),
    }
}

#[test]
fn from_values_stops_at_the_shorter() {
    let h = sample();
    let r = h.from_values(vec![7]);
    assert_eq!(r.keys_length(), 1);
    assert_eq!(r.values(), vec![&7]);
    let mut m: KeyedMap<i64, i64> = KeyedMap::new();
    m.insert(0, 0);
    let r2 = Hashmap::I64(m).from_values(vec![5, 6, 7]);
    assert_eq!(r2.keys_length(), 1);
    assert_eq!(r2.values(), vec![&5]);
}

#[test]
fn from_own_values_round_trips() {
    let h = sample();
    let values: Vec<i64> = h.values().into_iter().cloned().collect();
    let r = h.from_values(values);
    assert_eq!(r.values(), h.values());
    match (r, h) {
        (Hashmap::Str(a), Hashmap::Str(b)) => assert_eq!(a.into_vec(), b.into_vec()),
        _ => panic!("key type changed"),
    }
}
