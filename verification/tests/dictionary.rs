use geoip_resolver::dictionary::Dictionary;

#[test]
fn new_dictionary_is_empty() {
    let d: Dictionary<u32> = Dictionary::new();
    assert_eq!(d.len(), 0);
    assert!(!d.contains_key("a"));
    assert_eq!(d.get("a"), None);
}

#[test]
fn insert_then_get() {
    let mut d: Dictionary<u32> = Dictionary::new();
    d.insert("a".to_string(), 1);
    d.insert("b".to_string(), 2);
    assert_eq!(d.len(), 2);
    assert_eq!(d.get("a"), Some(&1));
    assert_eq!(d.get("b"), Some(&2));
    assert_eq!(d.get("c"), None);
    assert!(d.contains_key("b"));
}

#[test]
fn last_write_wins_and_keeps_the_place() {
    let mut d: Dictionary<u32> = Dictionary::new();
    d.insert("a".to_string(), 1);
    d.insert("b".to_string(), 2);
    d.insert("a".to_string(), 3);
    assert_eq!(d.len(), 2);
    assert_eq!(d.get("a"), Some(&3));
    assert_eq!(d.entry(0), (&"a".to_string(), &3));
    assert_eq!(d.entry(1), (&"b".to_string(), &2));
}

#[test]
fn entries_walk_every_key_once() {
    let mut d: Dictionary<usize> = Dictionary::new();
    for round in 0..3 {
        for i in 0..50 {
            d.insert(format!("key{}", i), i + round);
        }
    }
    assert_eq!(d.len(), 50);
    let mut seen: Vec<String> = Vec::new();
    for i in 0..d.len() {
        let (k, v) = d.entry(i);
        assert_eq!(*k, format!("key{}", i));
        assert_eq!(*v, i + 2);
        assert!(!seen.contains(k));
        seen.push(k.clone());
    }
}
