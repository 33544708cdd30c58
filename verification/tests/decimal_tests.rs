use cqrs_rust_lib::decimal::dec_string;
use cqrs_rust_lib::string_map::StringMap;

#[test]
fn test_dec_string_values() {
    assert_eq!(dec_string(0), "0");
    assert_eq!(dec_string(7), "7");
    assert_eq!(dec_string(10), "10");
    assert_eq!(dec_string(25), "25");
    assert_eq!(dec_string(12345), "12345");
}

#[test]
fn test_string_map_upsert_and_get() {
    let mut m: StringMap<String> = StringMap::new();
    assert!(m.is_empty());
    m.insert("a".to_string(), "1".to_string());
    m.insert("b".to_string(), "2".to_string());
    m.insert("a".to_string(), "3".to_string());
    assert_eq!(m.len(), 2);
    assert_eq!(m.get(&"a".to_string()), Some(&"3".to_string()));
    assert_eq!(m.get(&"b".to_string()), Some(&"2".to_string()));
    assert_eq!(m.get(&"c".to_string()), None);
    assert!(m.contains_key(&"a".to_string()));
    m.clear();
    assert_eq!(m.len(), 0);
}

#[test]
fn test_string_map_merged_prefers_overrides() {
    let mut defaults: StringMap<String> = StringMap::new();
    defaults.insert("user_id".to_string(), "anonymous".to_string());
    defaults.insert("request_id".to_string(), "r-1".to_string());
    let mut overrides: StringMap<String> = StringMap::new();
    overrides.insert("user_id".to_string(), "bob".to_string());
    overrides.insert("extra".to_string(), "x".to_string());
    let merged = StringMap::merged(&defaults, &overrides);
    assert_eq!(merged.get(&"user_id".to_string()), Some(&"bob".to_string()));
    assert_eq!(merged.get(&"request_id".to_string()), Some(&"r-1".to_string()));
    assert_eq!(merged.get(&"extra".to_string()), Some(&"x".to_string()));
    assert_eq!(merged.len(), 3);
}
