use ipguard::strmap::StrMap;

#[test]
fn a_new_map_holds_nothing() {
    let map: StrMap<u64> = StrMap::new();
    assert!(!map.contains_key("a"));
    assert_eq!(map.get("a"), None);
}

#[test]
fn insert_then_get_returns_the_value() {
    let mut map: StrMap<u64> = StrMap::new();
    map.insert(String::from("a"), 1);
    map.insert(String::from("b"), 2);
    assert_eq!(map.get("a"), Some(&1));
    assert_eq!(map.get("b"), Some(&2));
    assert_eq!(map.get("c"), None);
    assert!(map.contains_key("b"));
}

#[test]
fn insert_replaces_the_value_of_a_key() {
    let mut map: StrMap<u64> = StrMap::new();
    map.insert(String::from("a"), 1);
    map.insert(String::from("a"), 7);
    assert_eq!(map.get("a"), Some(&7));
    assert_eq!(map.remove("a"), Some(7));
    assert_eq!(map.get("a"), None);
}

#[test]
fn remove_takes_one_key_and_leaves_the_others() {
    let mut map: StrMap<u64> = StrMap::new();
    map.insert(String::from("a"), 1);
    map.insert(String::from("b"), 2);
    map.insert(String::from("c"), 3);
    assert_eq!(map.remove("b"), Some(2));
    assert_eq!(map.remove("b"), None);
    assert_eq!(map.get("a"), Some(&1));
    assert_eq!(map.get("c"), Some(&3));
    assert!(!map.contains_key("b"));
}

#[test]
fn pop_empties_the_map_one_key_at_a_time() {
    let mut map: StrMap<u64> = StrMap::new();
    map.insert(String::from("a"), 1);
    map.insert(String::from("b"), 2);
    let mut seen = Vec::new();
    while let Some((key, value)) = map.pop() {
        assert!(!map.contains_key(&key));
        seen.push((key, value));
    }
    seen.sort();
    assert_eq!(seen, vec![(String::from("a"), 1), (String::from("b"), 2)]);
    assert_eq!(map.pop(), None);
}
