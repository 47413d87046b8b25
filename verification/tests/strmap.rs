use sentry::strmap::StrMap;
use sentry::views::{replicate_opt, replicate_vec, Replicate};

fn text(s: &str) -> String {
    s.to_string()
}

#[test]
fn new_map_is_empty() {
    let m: StrMap<String> = StrMap::new();
    assert_eq!(m.len(), 0);
    assert!(m.get("a").is_none());
    assert!(!m.contains_key("a"));
    assert!(m.entry_at(0).is_none());
}

#[test]
fn insert_then_get() {
    let mut m: StrMap<String> = StrMap::new();
    m.insert(text("a"), text("1"));
    m.insert(text("b"), text("2"));
    assert_eq!(m.len(), 2);
    assert_eq!(m.get("a"), Some(&text("1")));
    assert_eq!(m.get("b"), Some(&text("2")));
    assert_eq!(m.get("c"), None);
    assert!(m.contains_key("b"));
    assert!(!m.contains_key("ab"));
}

#[test]
fn insert_replaces_and_keeps_place() {
    let mut m: StrMap<String> = StrMap::new();
    m.insert(text("a"), text("1"));
    m.insert(text("b"), text("2"));
    m.insert(text("a"), text("3"));
    assert_eq!(m.len(), 2);
    assert_eq!(m.get("a"), Some(&text("3")));
    assert_eq!(m.entry_at(0), Some((&text("a"), &text("3"))));
    assert_eq!(m.entry_at(1), Some((&text("b"), &text("2"))));
    assert_eq!(m.entry_at(2), None);
}

#[test]
fn keys_that_differ_in_one_character_are_different() {
    let mut m: StrMap<String> = StrMap::new();
    m.insert(text("key"), text("1"));
    m.insert(text("kez"), text("2"));
    m.insert(text(""), text("3"));
    assert_eq!(m.len(), 3);
    assert_eq!(m.get("key"), Some(&text("1")));
    assert_eq!(m.get("kez"), Some(&text("2")));
    assert_eq!(m.get(""), Some(&text("3")));
    assert_eq!(m.get("ke"), None);
}

#[test]
fn remove_returns_value_and_keeps_order() {
    let mut m: StrMap<String> = StrMap::new();
    m.insert(text("a"), text("1"));
    m.insert(text("b"), text("2"));
    m.insert(text("c"), text("3"));
    assert_eq!(m.remove("b"), Some(text("2")));
    assert_eq!(m.remove("b"), None);
    assert_eq!(m.len(), 2);
    assert_eq!(m.entry_at(0), Some((&text("a"), &text("1"))));
    assert_eq!(m.entry_at(1), Some((&text("c"), &text("3"))));
    assert!(!m.contains_key("b"));
}

#[test]
fn extend_from_prefers_the_other_map() {
    let mut base: StrMap<String> = StrMap::new();
    base.insert(text("a"), text("1"));
    base.insert(text("b"), text("2"));
    let mut top: StrMap<String> = StrMap::new();
    top.insert(text("c"), text("30"));
    top.insert(text("a"), text("10"));
    base.extend_from(&top);
    assert_eq!(base.len(), 3);
    assert_eq!(base.get("a"), Some(&text("10")));
    assert_eq!(base.get("b"), Some(&text("2")));
    assert_eq!(base.get("c"), Some(&text("30")));
    assert_eq!(base.entry_at(0).map(|e| e.0.as_str()), Some("a"));
    assert_eq!(base.entry_at(1).map(|e| e.0.as_str()), Some("b"));
    assert_eq!(base.entry_at(2).map(|e| e.0.as_str()), Some("c"));
    assert_eq!(top.len(), 2);
    assert_eq!(top.get("a"), Some(&text("10")));
}

#[test]
fn insert_all_lets_the_later_pair_win() {
    let mut m: StrMap<String> = StrMap::new();
    let pairs = vec![
        (text("x"), text("1")),
        (text("y"), text("2")),
        (text("x"), text("3")),
    ];
    m.insert_all(&pairs);
    assert_eq!(m.len(), 2);
    assert_eq!(m.get("x"), Some(&text("3")));
    assert_eq!(m.get("y"), Some(&text("2")));
}

#[test]
fn duplicate_is_independent() {
    let mut m: StrMap<String> = StrMap::new();
    m.insert(text("a"), text("1"));
    let mut copy = m.duplicate();
    copy.insert(text("a"), text("2"));
    copy.insert(text("b"), text("3"));
    assert_eq!(m.get("a"), Some(&text("1")));
    assert_eq!(m.len(), 1);
    assert_eq!(copy.get("a"), Some(&text("2")));
    let again = m.replicate();
    assert_eq!(again.get("a"), Some(&text("1")));
}

#[test]
fn replicate_helpers_copy_every_item() {
    let items = vec![text("a"), text("b")];
    assert_eq!(replicate_vec(&items), items);
    let none: Option<String> = None;
    assert_eq!(replicate_opt(&none), None);
    assert_eq!(replicate_opt(&Some(text("x"))), Some(text("x")));
}
