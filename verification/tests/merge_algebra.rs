use shipcat::keyed::StringMap;
use shipcat::merge::Merge;
use std::collections::BTreeMap;

fn keyed<V>(pairs: Vec<(&str, V)>) -> StringMap<V> {
    let mut m = StringMap::new();
    for (k, v) in pairs {
        m.insert(k.to_string(), v);
    }
    m
}

fn sorted<V>(m: StringMap<V>) -> BTreeMap<String, V> {
    m.into_entries().into_iter().map(|e| (e.key, e.value)).collect()
}

#[test]
fn option() {
    let a = Option::Some(1);
    let b = Option::Some(2);
    let none = Option::None;

    assert_eq!(a.merge(b), b);
    assert_eq!(a.merge(none), a);
    assert_eq!(none.merge(b), b);
    assert_eq!(none.merge(none), none);
}

#[test]
fn btree_map() {
    let mut a = StringMap::new();
    a.insert("a".to_string(), Some("a-value"));
    a.insert("b".to_string(), Some("a-value"));
    a.insert("c".to_string(), None);

    let mut b = StringMap::new();
    b.insert("a".to_string(), Some("b-value"));
    b.insert("b".to_string(), None);
    b.insert("c".to_string(), Some("b-value"));
    b.insert("d".to_string(), Some("b-value"));

    let merged = a.merge(b);
    let mut expected = BTreeMap::new();
    expected.insert("a".to_string(), Some("b-value"));
    expected.insert("b".to_string(), Some("a-value"));
    expected.insert("c".to_string(), Some("b-value"));
    expected.insert("d".to_string(), Some("b-value"));
    assert_eq!(sorted(merged), expected);
}

#[test]
fn option_merge_is_right_biased() {
    let a: Option<String> = Some("left".to_string());
    let b: Option<String> = Some("right".to_string());
    assert_eq!(a.clone().merge(b.clone()), b);
    assert_eq!(a.clone().merge(None), a);
    assert_eq!(None.merge(b.clone()), b);
}

#[test]
fn map_merge_has_keys_of_both_sides() {
    let a = keyed(vec![("only-a", Some(1)), ("both", Some(2))]);
    let b = keyed(vec![("both", Some(3)), ("only-b", Some(4))]);
    let merged = sorted(a.merge(b));
    let keys: Vec<&str> = merged.keys().map(|k| k.as_str()).collect();
    assert_eq!(keys, vec!["both", "only-a", "only-b"]);
    assert_eq!(merged["only-a"], Some(1));
    assert_eq!(merged["both"], Some(3));
    assert_eq!(merged["only-b"], Some(4));
}

#[test]
fn map_merge_recurses_into_shared_keys() {
    let a = keyed(vec![("x", keyed(vec![("p", Some(1)), ("q", Some(2))]))]);
    let b = keyed(vec![("x", keyed(vec![("q", None), ("r", Some(3))]))]);
    let merged = sorted(a.merge(b));
    let inner = sorted(merged.into_iter().next().unwrap().1);
    assert_eq!(inner["p"], Some(1));
    assert_eq!(inner["q"], Some(2));
    assert_eq!(inner["r"], Some(3));
}

#[test]
fn map_merge_with_empty_keeps_contents() {
    let a = keyed(vec![("a", Some(1)), ("b", None)]);
    let merged = sorted(a.clone().merge(StringMap::new()));
    assert_eq!(merged, sorted(a.clone()));
    let merged = sorted(StringMap::new().merge(a.clone()));
    assert_eq!(merged, sorted(a));
}

#[test]
fn string_map_basics() {
    let mut m: StringMap<u32> = StringMap::new();
    assert!(m.is_empty());
    assert_eq!(m.insert("a".to_string(), 1), None);
    assert_eq!(m.insert("b".to_string(), 2), None);
    assert_eq!(m.insert("a".to_string(), 3), Some(1));
    assert_eq!(m.len(), 2);
    assert_eq!(m.get("a"), Some(&3));
    assert_eq!(m.get("c"), None);
    assert!(m.contains_key("b"));
    assert_eq!(m.find("b"), Some(1));
    assert_eq!(m.key_at(0), "a");
    assert_eq!(*m.value_at(1), 2);
    assert_eq!(m.remove("a"), Some(3));
    assert_eq!(m.remove("a"), None);
    assert_eq!(m.len(), 1);
    let copy = m.clone();
    assert_eq!(sorted(copy), sorted(m));
}
