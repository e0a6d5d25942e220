use moesif_exproc::map::StringMap;

fn sample() -> StringMap<String> {
    let mut m = StringMap::new();
    m.insert(":path".to_string(), "/a".to_string());
    m.insert("host".to_string(), "example.com".to_string());
    m.insert(":method".to_string(), "POST".to_string());
    m
}

#[test]
fn insert_replaces_in_place_and_appends_new_keys() {
    let mut m = sample();
    assert_eq!(m.len(), 3);
    m.insert("host".to_string(), "other".to_string());
    assert_eq!(m.len(), 3);
    assert_eq!(m.key_at(1), "host");
    assert_eq!(m.value_at(1), "other");
    m.insert("z".to_string(), "1".to_string());
    assert_eq!(m.key_at(3), "z");
}

#[test]
fn get_after_insert_and_remove() {
    let mut m = sample();
    m.insert("k".to_string(), "v".to_string());
    assert_eq!(m.get("k"), Some(&"v".to_string()));
    assert_eq!(m.get("host"), Some(&"example.com".to_string()));
    assert_eq!(m.remove("k"), Some("v".to_string()));
    assert_eq!(m.get("k"), None);
    assert!(!m.contains_key("k"));
    assert_eq!(m.remove("k"), None);
    assert_eq!(m.get("host"), Some(&"example.com".to_string()));
}

#[test]
fn retain_unprefixed_drops_pseudo_headers_in_order() {
    let mut m = sample();
    m.retain_unprefixed(':');
    assert_eq!(m.len(), 1);
    assert_eq!(m.key_at(0), "host");
}

#[test]
fn take_flagged_splits_in_order() {
    let mut m = sample();
    let taken = m.take_flagged(&vec![true, false, true]);
    assert_eq!(taken.len(), 2);
    assert_eq!(taken[0].0, ":path");
    assert_eq!(taken[1].0, ":method");
    assert_eq!(m.len(), 1);
    assert_eq!(m.key_at(0), "host");
}

#[test]
fn duplicate_copies_every_entry() {
    let m = sample();
    let d = m.duplicate();
    assert_eq!(d.len(), 3);
    for i in 0..3 {
        assert_eq!(d.key_at(i), m.key_at(i));
        assert_eq!(d.value_at(i), m.value_at(i));
    }
    assert!(StringMap::<String>::new().is_empty());
}
