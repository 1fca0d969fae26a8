use bridgehead::ordered_map::{text_order, OrderedMap, TextOrder};

#[test]
fn text_order_is_lexicographic() {
    assert!(matches!(text_order("a", "b"), TextOrder::Less));
    assert!(matches!(text_order("b", "a"), TextOrder::Greater));
    assert!(matches!(text_order("ab", "ab"), TextOrder::Equal));
    assert!(matches!(text_order("a", "ab"), TextOrder::Less));
    assert!(matches!(text_order("", "a"), TextOrder::Less));
    assert!(matches!(text_order("", ""), TextOrder::Equal));
    assert!(matches!(text_order("B", "a"), TextOrder::Less));
}

#[test]
fn text_order_agrees_with_the_standard_library() {
    let texts = ["", "a", "ab", "b", "B", "ä", "z", "CCP_A", "CCP-A", "ccp"];
    for a in texts {
        for b in texts {
            let ours = text_order(a, b);
            match a.cmp(b) {
                std::cmp::Ordering::Less => assert!(matches!(ours, TextOrder::Less)),
                std::cmp::Ordering::Equal => assert!(matches!(ours, TextOrder::Equal)),
                std::cmp::Ordering::Greater => assert!(matches!(ours, TextOrder::Greater)),
            }
        }
    }
}

#[test]
fn ordered_map_keeps_its_keys_in_order() {
    let mut m: OrderedMap<u32> = OrderedMap::new();
    assert_eq!(m.insert("b".to_string(), 2), None);
    assert_eq!(m.insert("c".to_string(), 3), None);
    assert_eq!(m.insert("a".to_string(), 1), None);
    assert_eq!(m.len(), 3);
    assert_eq!(m.key_at(0), "a");
    assert_eq!(m.key_at(1), "b");
    assert_eq!(m.key_at(2), "c");
    assert_eq!(*m.value_at(1), 2);
}

#[test]
fn ordered_map_insert_replaces_and_returns_the_old_value() {
    let mut m: OrderedMap<u32> = OrderedMap::new();
    m.insert("k".to_string(), 1);
    assert_eq!(m.insert("k".to_string(), 2), Some(1));
    assert_eq!(m.len(), 1);
    assert_eq!(m.get("k"), Some(&2));
}

#[test]
fn ordered_map_get_of_missing_key() {
    let mut m: OrderedMap<u32> = OrderedMap::new();
    assert_eq!(m.get("k"), None);
    assert!(!m.contains_key("k"));
    m.insert("a".to_string(), 1);
    m.insert("z".to_string(), 2);
    assert_eq!(m.get("k"), None);
    assert!(m.contains_key("a"));
}

#[test]
fn ordered_map_duplicate_is_equal() {
    let mut m: OrderedMap<u32> = OrderedMap::new();
    m.insert("x".to_string(), 7);
    m.insert("a".to_string(), 8);
    let copy = m.duplicate();
    assert_eq!(copy.len(), 2);
    assert_eq!(copy.get("x"), Some(&7));
    assert_eq!(copy.key_at(0), "a");
}
