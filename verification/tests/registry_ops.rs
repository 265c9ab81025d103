use mpris_watch::registry::Registry;

fn snapshot_strings(reg: &Registry) -> Vec<String> {
    reg.snapshot()
}

#[test]
fn new_registry_is_empty() {
    let reg = Registry::new();
    assert!(snapshot_strings(&reg).is_empty());
}

#[test]
fn ops_in_order_yield_the_set() {
    // insert a, insert b, insert a (present: no-op), remove c (absent:
    // no-op), remove a -- the set left behind is {b}.
    let mut reg = Registry::new();
    reg.insert("a".to_string());
    reg.insert("b".to_string());
    reg.insert("a".to_string());
    reg.remove(&"c".to_string());
    reg.remove(&"a".to_string());
    assert_eq!(snapshot_strings(&reg), vec!["b".to_string()]);
}

#[test]
fn insert_is_idempotent() {
    let mut reg = Registry::new();
    reg.insert("x".to_string());
    reg.insert("x".to_string());
    assert_eq!(snapshot_strings(&reg), vec!["x".to_string()]);
}

#[test]
fn remove_absent_is_a_noop() {
    let mut reg = Registry::new();
    reg.insert("x".to_string());
    reg.remove(&"y".to_string());
    assert_eq!(snapshot_strings(&reg), vec!["x".to_string()]);
}

#[test]
fn replace_installs_exactly_the_given_names() {
    let mut reg = Registry::new();
    reg.insert("stale".to_string());
    reg.insert("older".to_string());
    reg.replace(vec!["a".to_string(), "b".to_string()]);
    assert_eq!(
        snapshot_strings(&reg),
        vec!["a".to_string(), "b".to_string()]
    );
}

#[test]
fn replace_drops_duplicates() {
    let mut reg = Registry::new();
    reg.replace(vec![
        "a".to_string(),
        "b".to_string(),
        "a".to_string(),
        "b".to_string(),
    ]);
    assert_eq!(
        snapshot_strings(&reg),
        vec!["a".to_string(), "b".to_string()]
    );
}

#[test]
fn replace_with_empty_clears() {
    let mut reg = Registry::new();
    reg.insert("a".to_string());
    reg.replace(Vec::new());
    assert!(snapshot_strings(&reg).is_empty());
}

#[test]
fn snapshot_is_a_copy() {
    let mut reg = Registry::new();
    reg.insert("a".to_string());
    let snap = reg.snapshot();
    reg.insert("b".to_string());
    assert_eq!(snap, vec!["a".to_string()]);
    assert_eq!(
        snapshot_strings(&reg),
        vec!["a".to_string(), "b".to_string()]
    );
}
