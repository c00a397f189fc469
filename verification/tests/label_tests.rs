use carbide_rvs::label::{is_rv_key, merge_rv_labels, LabelMap};

fn map(pairs: &[(&str, &str)]) -> LabelMap {
    let mut m = LabelMap::new();
    for (k, v) in pairs {
        m.insert(k.to_string(), v.to_string());
    }
    m
}

fn value<'a>(m: &'a LabelMap, key: &str) -> &'a str {
    m.get(key).unwrap().as_str()
}

#[test]
fn test_merge_preserves_non_rv_labels() {
    let existing = map(&[("owner", "ops"), ("rv.run-id", "old")]);
    let updates = map(&[("rv.run-id", "new")]);
    let result = merge_rv_labels(&existing, &updates);
    assert_eq!(result.len(), 2);
    assert_eq!(value(&result, "owner"), "ops");
    assert_eq!(value(&result, "rv.run-id"), "new");
}

#[test]
fn test_merge_drops_stale_rv_keys() {
    let existing = map(&[("rv.run-id", "old"), ("rv.st", "pass")]);
    let updates = map(&[("rv.run-id", "new")]);
    let result = merge_rv_labels(&existing, &updates);
    assert_eq!(result.len(), 1);
    assert_eq!(value(&result, "rv.run-id"), "new");
    assert!(!result.contains_key("rv.st"));
}

#[test]
fn test_merge_adds_new_rv_keys() {
    let existing = map(&[("owner", "ops")]);
    let updates = map(&[("rv.run-id", "abc")]);
    let result = merge_rv_labels(&existing, &updates);
    assert_eq!(result.len(), 2);
    assert_eq!(value(&result, "rv.run-id"), "abc");
    assert_eq!(value(&result, "owner"), "ops");
}

#[test]
fn test_merge_empty_existing() {
    let existing = map(&[]);
    let updates = map(&[("rv.run-id", "abc")]);
    let result = merge_rv_labels(&existing, &updates);
    assert_eq!(result, updates);
}

#[test]
fn test_merge_empty_updates() {
    let existing = map(&[("owner", "ops"), ("rv.run-id", "old")]);
    let result = merge_rv_labels(&existing, &map(&[]));
    assert_eq!(result, map(&[("owner", "ops")]));
}

#[test]
fn rv_keys_start_with_the_prefix() {
    assert!(is_rv_key("rv."));
    assert!(is_rv_key("rv.st"));
    assert!(!is_rv_key("rv"));
    assert!(!is_rv_key("rvs"));
    assert!(!is_rv_key("x.rv."));
    assert!(!is_rv_key(""));
    assert!(!is_rv_key("RV.st"));
}

#[test]
fn merging_twice_changes_nothing() {
    let existing = map(&[("owner", "ops"), ("rv.st", "pass")]);
    let updates = map(&[("rv.run-id", "abc"), ("rv.st", "fail")]);
    let once = merge_rv_labels(&existing, &updates);
    let twice = merge_rv_labels(&once, &updates);
    assert_eq!(once, twice);
    assert_eq!(once, map(&[("rv.st", "fail"), ("owner", "ops"), ("rv.run-id", "abc")]));
}

#[test]
fn the_last_merge_wins() {
    let existing = map(&[("owner", "ops")]);
    let first = map(&[("rv.a", "1")]);
    let second = map(&[("rv.b", "2")]);
    let both = merge_rv_labels(&merge_rv_labels(&existing, &first), &second);
    assert_eq!(both, merge_rv_labels(&existing, &second));
    assert_eq!(both, map(&[("owner", "ops"), ("rv.b", "2")]));
}

#[test]
fn an_update_outside_rv_is_applied() {
    let existing = map(&[("owner", "ops")]);
    let updates = map(&[("owner", "dev")]);
    assert_eq!(merge_rv_labels(&existing, &updates), updates);
}

#[test]
fn inserting_a_known_key_replaces_its_value() {
    let mut m = map(&[("a", "1"), ("b", "2")]);
    m.insert("a".to_string(), "3".to_string());
    assert_eq!(m.len(), 2);
    assert_eq!(value(&m, "a"), "3");
    assert_eq!(value(&m, "b"), "2");
    assert!(m.get("c").is_none());
    assert_eq!(m.entries().len(), 2);
}

#[test]
fn maps_differ_by_key_and_by_value() {
    assert!(map(&[("a", "1")]) != map(&[("a", "2")]));
    assert!(map(&[("a", "1")]) != map(&[("b", "1")]));
    assert!(map(&[("a", "1")]) != map(&[("a", "1"), ("b", "2")]));
    assert!(map(&[("a", "1"), ("b", "2")]) == map(&[("b", "2"), ("a", "1")]));
}
