use sentry::protocol::{Breadcrumb, Context, Event, JsonValue, User};
use sentry::scope::{push_scope, Scope, ScopeStack};
use sentry::strmap::StrMap;
use sentry::views::Replicate;

fn crumb(n: u64) -> Breadcrumb {
    let mut b = Breadcrumb::new(n);
    b.message = Some(format!("crumb {}", n));
    b
}

fn times(list: &Vec<Breadcrumb>) -> Vec<u64> {
    list.iter().map(|b| b.timestamp).collect()
}

fn user(id: &str) -> User {
    User { id: Some(id.to_string()), username: None, email: None, ip_address: None }
}

fn context(name: &str) -> Context {
    Context { name: Some(name.to_string()), version: None, data: StrMap::new() }
}

fn json(text: &str) -> JsonValue {
    JsonValue::new(serde_json::Value::from(text))
}

#[test]
fn new_scope_holds_nothing() {
    let scope = Scope::new();
    assert!(scope.fingerprint.is_none());
    assert!(scope.user.is_none());
    assert_eq!(scope.tags.len(), 0);
    assert_eq!(scope.extra.len(), 0);
    assert_eq!(scope.contexts.len(), 0);
    assert!(scope.breadcrumbs.is_empty());
}

#[test]
fn mutators_set_and_remove() {
    let mut scope = Scope::new();
    scope.set_tag("a", "1");
    scope.set_tag("b", "2");
    scope.set_tag("a", "3");
    assert_eq!(scope.tags.get("a").map(String::as_str), Some("3"));
    assert_eq!(scope.tags.len(), 2);
    scope.remove_tag("a");
    scope.remove_tag("missing");
    assert!(scope.tags.get("a").is_none());
    assert_eq!(scope.tags.len(), 1);

    scope.set_extra("k", json("v"));
    assert_eq!(scope.extra.get("k").map(|v| v.json.clone()), Some(serde_json::Value::from("v")));
    scope.remove_extra("k");
    assert_eq!(scope.extra.len(), 0);

    scope.set_context("os", context("linux"));
    assert_eq!(
        scope.contexts.get("os").and_then(|c| c.name.clone()),
        Some("linux".to_string())
    );
    scope.remove_context("os");
    assert_eq!(scope.contexts.len(), 0);

    scope.set_user(Some(user("u1")));
    assert_eq!(scope.user.as_ref().and_then(|u| u.id.clone()), Some("u1".to_string()));
    scope.set_user(None);
    assert!(scope.user.is_none());

    scope.set_fingerprint(Some(&["a", "b"][..]));
    assert_eq!(scope.fingerprint, Some(vec!["a".to_string(), "b".to_string()]));
    scope.set_fingerprint(Some(&[][..]));
    assert_eq!(scope.fingerprint, Some(Vec::new()));
    scope.set_fingerprint(None);
    assert_eq!(scope.fingerprint, None);
    assert_eq!(scope.tags.get("b").map(String::as_str), Some("2"));
}

#[test]
fn clear_resets_everything() {
    let mut scope = Scope::new();
    scope.set_tag("a", "1");
    scope.set_extra("k", json("v"));
    scope.set_context("os", context("linux"));
    scope.set_user(Some(user("u1")));
    scope.set_fingerprint(Some(&["x"][..]));
    scope.add_breadcrumb(crumb(1), 10);
    scope.clear();
    assert!(scope.fingerprint.is_none());
    assert!(scope.user.is_none());
    assert_eq!(scope.tags.len(), 0);
    assert_eq!(scope.extra.len(), 0);
    assert_eq!(scope.contexts.len(), 0);
    assert!(scope.breadcrumbs.is_empty());
}

#[test]
fn breadcrumbs_never_exceed_the_cap() {
    let mut scope = Scope::new();
    for n in 1..=3 {
        scope.add_breadcrumb(crumb(n), 3);
    }
    assert_eq!(times(&scope.breadcrumbs), vec![1, 2, 3]);
    scope.add_breadcrumb(crumb(4), 3);
    assert_eq!(times(&scope.breadcrumbs), vec![2, 3, 4]);
    for n in 5..=20 {
        scope.add_breadcrumb(crumb(n), 3);
        assert!(scope.breadcrumbs.len() <= 3);
    }
    assert_eq!(times(&scope.breadcrumbs), vec![18, 19, 20]);
}

#[test]
fn a_smaller_cap_trims_the_trail() {
    let mut scope = Scope::new();
    for n in 1..=5 {
        scope.add_breadcrumb(crumb(n), 5);
    }
    scope.add_breadcrumb(crumb(6), 2);
    assert_eq!(times(&scope.breadcrumbs), vec![5, 6]);
    scope.add_breadcrumb(crumb(7), 0);
    assert!(scope.breadcrumbs.is_empty());
}

#[test]
fn child_frame_wins_and_pop_restores() {
    let mut stack = ScopeStack::new();
    stack.top_mut().set_tag("a", "1");
    let guard = push_scope(&mut stack);
    assert!(stack.effective_scope(10).tags.get("a").map(String::as_str) == Some("1"));
    stack.top_mut().set_tag("a", "2");
    let merged = stack.effective_scope(10);
    assert_eq!(merged.tags.get("a").map(String::as_str), Some("2"));
    assert!(stack.pop(guard).is_ok());
    let merged = stack.effective_scope(10);
    assert_eq!(merged.tags.get("a").map(String::as_str), Some("1"));
}

#[test]
fn clearing_the_child_frame_restores_too() {
    let mut stack = ScopeStack::new();
    stack.top_mut().set_tag("a", "1");
    stack.top_mut().set_extra("e", json("base"));
    stack.top_mut().set_context("os", context("linux"));
    let guard = stack.push();
    stack.top_mut().set_tag("a", "2");
    stack.top_mut().set_extra("e", json("child"));
    stack.top_mut().set_context("os", context("bsd"));
    let merged = stack.effective_scope(10);
    assert_eq!(merged.extra.get("e").map(|v| v.json.clone()), Some(serde_json::Value::from("child")));
    assert_eq!(merged.contexts.get("os").and_then(|c| c.name.clone()), Some("bsd".to_string()));
    stack.top_mut().clear();
    assert_eq!(stack.depth(), 1);
    let merged = stack.effective_scope(10);
    assert_eq!(merged.tags.get("a").map(String::as_str), Some("1"));
    assert_eq!(merged.extra.get("e").map(|v| v.json.clone()), Some(serde_json::Value::from("base")));
    assert_eq!(merged.contexts.get("os").and_then(|c| c.name.clone()), Some("linux".to_string()));
    assert!(stack.pop(guard).is_ok());
}

#[test]
fn removing_in_the_child_does_not_touch_the_parent() {
    let mut stack = ScopeStack::new();
    stack.top_mut().set_tag("a", "1");
    let guard = stack.push();
    stack.top_mut().remove_tag("a");
    assert_eq!(stack.effective_scope(10).tags.get("a").map(String::as_str), Some("1"));
    assert!(stack.pop(guard).is_ok());
    assert_eq!(stack.top().tags.get("a").map(String::as_str), Some("1"));
}

#[test]
fn effective_scope_merges_all_frames() {
    let mut stack = ScopeStack::new();
    stack.top_mut().set_tag("a", "1");
    stack.top_mut().set_tag("b", "1");
    stack.top_mut().set_user(Some(user("base")));
    stack.top_mut().set_fingerprint(Some(&["base"][..]));
    stack.top_mut().add_breadcrumb(crumb(1), 10);
    stack.top_mut().add_breadcrumb(crumb(2), 10);
    let g1 = stack.push();
    stack.top_mut().set_tag("b", "2");
    stack.top_mut().set_tag("c", "2");
    stack.top_mut().add_breadcrumb(crumb(3), 10);
    let g2 = stack.push();
    stack.top_mut().set_tag("c", "3");
    stack.top_mut().set_user(Some(user("top")));
    stack.top_mut().add_breadcrumb(crumb(4), 10);

    let merged = stack.effective_scope(10);
    assert_eq!(merged.tags.get("a").map(String::as_str), Some("1"));
    assert_eq!(merged.tags.get("b").map(String::as_str), Some("2"));
    assert_eq!(merged.tags.get("c").map(String::as_str), Some("3"));
    assert_eq!(merged.user.as_ref().and_then(|u| u.id.clone()), Some("top".to_string()));
    assert_eq!(merged.fingerprint, Some(vec!["base".to_string()]));
    assert_eq!(times(&merged.breadcrumbs), vec![1, 2, 3, 4]);

    let capped = stack.effective_scope(3);
    assert_eq!(times(&capped.breadcrumbs), vec![2, 3, 4]);
    let none = stack.effective_scope(0);
    assert!(none.breadcrumbs.is_empty());

    assert!(stack.pop(g2).is_ok());
    assert!(stack.pop(g1).is_ok());
    let merged = stack.effective_scope(10);
    assert_eq!(merged.tags.get("b").map(String::as_str), Some("1"));
    assert!(merged.tags.get("c").is_none());
    assert_eq!(times(&merged.breadcrumbs), vec![1, 2]);
}

#[test]
fn effective_scope_is_a_snapshot() {
    let mut stack = ScopeStack::new();
    stack.top_mut().set_tag("a", "1");
    let snapshot = stack.effective_scope(10);
    stack.top_mut().set_tag("a", "2");
    assert_eq!(snapshot.tags.get("a").map(String::as_str), Some("1"));
}

#[test]
fn depth_returns_after_balanced_work() {
    let mut stack = ScopeStack::new();
    assert_eq!(stack.depth(), 0);
    let before = stack.depth();
    let g1 = push_scope(&mut stack);
    assert_eq!(stack.depth(), 1);
    let g2 = push_scope(&mut stack);
    stack.top_mut().set_tag("x", "y");
    assert_eq!(stack.depth(), 2);
    assert!(stack.pop(g2).is_ok());
    let g3 = push_scope(&mut stack);
    assert_eq!(stack.depth(), 2);
    assert!(stack.pop(g3).is_ok());
    assert!(stack.pop(g1).is_ok());
    assert_eq!(stack.depth(), before);
    for _ in 0..50 {
        let g = stack.push();
        let h = stack.push();
        assert!(stack.pop(h).is_ok());
        assert!(stack.pop(g).is_ok());
    }
    assert_eq!(stack.depth(), before);
}

#[test]
fn popping_out_of_turn_is_reported_and_changes_nothing() {
    let mut stack = ScopeStack::new();
    let outer = stack.push();
    stack.top_mut().set_tag("frame", "outer");
    let inner = stack.push();
    stack.top_mut().set_tag("frame", "inner");
    let violation = stack.pop(outer).unwrap_err();
    assert_eq!(violation.guard_depth, 1);
    assert_eq!(violation.stack_depth, 2);
    assert_eq!(stack.depth(), 2);
    assert_eq!(stack.top().tags.get("frame").map(String::as_str), Some("inner"));
    assert!(stack.pop(inner).is_ok());
    assert_eq!(stack.depth(), 1);
    assert_eq!(stack.top().tags.get("frame").map(String::as_str), Some("outer"));
}

#[test]
fn the_bottom_frame_never_leaves() {
    let mut other = ScopeStack::new();
    let foreign = other.push();
    let mut stack = ScopeStack::new();
    stack.top_mut().set_tag("a", "1");
    let violation = stack.pop(foreign).unwrap_err();
    assert_eq!(violation.guard_depth, 1);
    assert_eq!(violation.stack_depth, 0);
    assert_eq!(stack.depth(), 0);
    assert_eq!(stack.top().tags.get("a").map(String::as_str), Some("1"));
}

#[test]
fn fork_copies_the_top_frame() {
    let mut parent = ScopeStack::new();
    parent.top_mut().set_tag("base", "1");
    let guard = parent.push();
    parent.top_mut().set_tag("a", "1");
    let mut child = parent.fork();
    assert_eq!(child.depth(), 0);
    assert_eq!(child.top().tags.get("a").map(String::as_str), Some("1"));
    assert!(child.top().tags.get("base").is_none());

    parent.top_mut().set_tag("a", "parent");
    child.top_mut().set_tag("a", "child");
    child.top_mut().set_tag("b", "child");
    assert_eq!(parent.top().tags.get("a").map(String::as_str), Some("parent"));
    assert!(parent.top().tags.get("b").is_none());
    assert_eq!(child.top().tags.get("a").map(String::as_str), Some("child"));
    assert!(parent.pop(guard).is_ok());
    assert_eq!(child.top().tags.get("a").map(String::as_str), Some("child"));
}

#[test]
fn overlay_prefers_the_top() {
    let mut base = Scope::new();
    base.set_tag("a", "1");
    base.set_user(Some(user("base")));
    base.add_breadcrumb(crumb(1), 10);
    let mut top = Scope::new();
    top.set_tag("a", "2");
    top.set_fingerprint(Some(&["f"][..]));
    top.add_breadcrumb(crumb(2), 10);
    base.overlay_from(&top, 10);
    assert_eq!(base.tags.get("a").map(String::as_str), Some("2"));
    assert_eq!(base.user.as_ref().and_then(|u| u.id.clone()), Some("base".to_string()));
    assert_eq!(base.fingerprint, Some(vec!["f".to_string()]));
    assert_eq!(times(&base.breadcrumbs), vec![1, 2]);
    assert_eq!(times(&top.breadcrumbs), vec![2]);
}

#[test]
fn scope_is_merged_into_the_event() {
    let mut scope = Scope::new();
    scope.set_tag("a", "scope");
    scope.set_tag("b", "scope");
    scope.set_extra("e", json("scope"));
    scope.set_context("os", context("linux"));
    scope.set_user(Some(user("scope")));
    scope.set_fingerprint(Some(&["scope"][..]));
    scope.add_breadcrumb(crumb(2), 10);
    scope.add_breadcrumb(crumb(3), 10);

    let mut event = Event::new(9);
    event.tags.insert("a".to_string(), "event".to_string());
    event.tags.insert("c".to_string(), "event".to_string());
    event.user = Some(user("event"));
    event.breadcrumbs.push(crumb(1));
    scope.apply_to_event(&mut event, 10);

    assert_eq!(event.tags.get("a").map(String::as_str), Some("scope"));
    assert_eq!(event.tags.get("b").map(String::as_str), Some("scope"));
    assert_eq!(event.tags.get("c").map(String::as_str), Some("event"));
    assert_eq!(event.extra.get("e").map(|v| v.json.clone()), Some(serde_json::Value::from("scope")));
    assert_eq!(event.contexts.get("os").and_then(|c| c.name.clone()), Some("linux".to_string()));
    assert_eq!(event.user.as_ref().and_then(|u| u.id.clone()), Some("event".to_string()));
    assert_eq!(event.fingerprint, Some(vec!["scope".to_string()]));
    assert_eq!(times(&event.breadcrumbs), vec![1, 2, 3]);
    assert_eq!(event.timestamp, 9);

    let mut small = Event::new(9);
    small.breadcrumbs.push(crumb(1));
    scope.apply_to_event(&mut small, 2);
    assert_eq!(times(&small.breadcrumbs), vec![2, 3]);
    assert_eq!(times(&scope.breadcrumbs), vec![2, 3]);
}

#[test]
fn replicate_copies_a_scope() {
    let mut scope = Scope::new();
    scope.set_tag("a", "1");
    scope.set_extra("e", json("deep"));
    scope.add_breadcrumb(crumb(1), 10);
    let mut copy = scope.replicate();
    copy.set_tag("a", "2");
    assert_eq!(scope.tags.get("a").map(String::as_str), Some("1"));
    assert_eq!(copy.extra.get("e").map(|v| v.json.clone()), Some(serde_json::Value::from("deep")));
    assert_eq!(times(&copy.breadcrumbs), vec![1]);
}
