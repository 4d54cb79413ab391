use openrpsee::name_map::NameMap;

#[test]
fn insert_get_and_replace() {
    let mut m: NameMap<u32> = NameMap::new();
    assert!(m.is_empty());
    assert_eq!(m.insert("b".to_string(), 2), None);
    assert_eq!(m.insert("a".to_string(), 1), None);
    assert_eq!(m.insert("c".to_string(), 3), None);
    assert_eq!(m.len(), 3);
    assert_eq!(m.get("a"), Some(&1));
    assert_eq!(m.get("d"), None);
    assert_eq!(m.insert("b".to_string(), 20), Some(2));
    assert_eq!(m.len(), 3);
    assert_eq!(m.get("b"), Some(&20));
    assert!(m.contains_key("c"));
    assert!(!m.contains_key("z"));
}

#[test]
fn remove_takes_the_value() {
    let mut m: NameMap<u32> = NameMap::new();
    m.insert("x".to_string(), 7);
    m.insert("y".to_string(), 8);
    assert_eq!(m.remove("x"), Some(7));
    assert_eq!(m.remove("x"), None);
    assert_eq!(m.len(), 1);
    assert_eq!(m.get("y"), Some(&8));
}

#[test]
fn values_come_out_in_name_order() {
    let mut m: NameMap<&str> = NameMap::new();
    for name in ["myrpc_foo", "Zed", "alpha", "myrpc_bar", "é", "beta"] {
        m.insert(name.to_string(), name);
    }
    let mut expected = vec!["myrpc_foo", "Zed", "alpha", "myrpc_bar", "é", "beta"];
    expected.sort();
    assert_eq!(m.into_values(), expected);
}

#[test]
fn extend_prefers_the_other_map() {
    let mut a: NameMap<u32> = NameMap::new();
    a.insert("one".to_string(), 1);
    a.insert("two".to_string(), 2);
    let mut b: NameMap<u32> = NameMap::new();
    b.insert("two".to_string(), 22);
    b.insert("three".to_string(), 3);
    a.extend(b);
    assert_eq!(a.len(), 3);
    assert_eq!(a.get("two"), Some(&22));
    assert_eq!(a.into_values(), vec![1, 3, 22]);
}

#[test]
fn from_entries_later_wins() {
    let m = NameMap::from_entries(vec![
        ("k".to_string(), 1),
        ("j".to_string(), 2),
        ("k".to_string(), 3),
    ]);
    assert_eq!(m.len(), 2);
    assert_eq!(m.get("k"), Some(&3));
    assert_eq!(m.into_values(), vec![2, 3]);
}

#[test]
fn clone_and_default() {
    let mut m: NameMap<String> = NameMap::default();
    m.insert("a".to_string(), "x".to_string());
    let c = m.clone();
    assert_eq!(c.get("a"), Some(&"x".to_string()));
    assert_eq!(c.len(), 1);
}
