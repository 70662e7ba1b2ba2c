use andromeda::kv::{contains_string, KeyedVec};

#[test]
fn insert_then_get_reads_back() {
    let mut kv: KeyedVec<u64> = KeyedVec::new();
    kv.insert(&"a".to_string(), 1);
    kv.insert(&"b".to_string(), 2);
    kv.insert(&"a".to_string(), 3);
    assert_eq!(kv.get(&"a".to_string()), Some(3));
    assert_eq!(kv.get(&"b".to_string()), Some(2));
    assert_eq!(kv.get(&"c".to_string()), None);
    // a replaced key keeps its place
    assert_eq!(kv.entries.len(), 2);
    assert_eq!(kv.entries[0].0, "a");
}

#[test]
fn string_membership() {
    let v = vec!["x".to_string(), "y".to_string()];
    assert!(contains_string(&v, &"y".to_string()));
    assert!(!contains_string(&v, &"z".to_string()));
}

#[test]
fn entries_are_kept_in_key_order() {
    let mut kv: KeyedVec<u64> = KeyedVec::new();
    kv.insert(&"native:uusd".to_string(), 1);
    kv.insert(&"cw20:token".to_string(), 2);
    kv.insert(&"native:uluna".to_string(), 3);
    let keys: Vec<&str> = kv.entries.iter().map(|(k, _)| k.as_str()).collect();
    assert_eq!(keys, vec!["cw20:token", "native:uluna", "native:uusd"]);
}
