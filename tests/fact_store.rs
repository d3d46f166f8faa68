use factoids::{Fact, FactKind, FactStore, KeyedFact};

fn ints_changed(store: &mut FactStore) -> Vec<String> {
    store.drain_changed(FactKind::Int)
}

#[test]
fn set_int_twice_marks_once() {
    let mut store = FactStore::new();
    assert!(store.set_int("k", 7));
    assert!(!store.set_int("k", 7));
    assert_eq!(ints_changed(&mut store), vec!["k".to_string()]);
    assert!(!store.set_int("k", 7));
    assert!(ints_changed(&mut store).is_empty());
}

#[test]
fn default_write_is_masked() {
    let mut store = FactStore::new();
    assert!(!store.set_int("x", 0));
    assert_eq!(store.get_int("x"), Some(0));
    assert!(ints_changed(&mut store).is_empty());
}

#[test]
fn default_string_and_bool_writes_are_masked() {
    let mut store = FactStore::new();
    assert!(!store.set_string("s", ""));
    assert!(!store.set_bool("b", false));
    assert_eq!(store.get_string("s").map(|s| s.as_str()), Some(""));
    assert_eq!(store.get_bool("b"), Some(false));
    assert!(store.drain_changed(FactKind::Str).is_empty());
    assert!(store.drain_changed(FactKind::Bool).is_empty());
}

#[test]
fn set_string_and_bool_record_changes() {
    let mut store = FactStore::new();
    assert!(store.set_string("name", "Alice"));
    assert!(!store.set_string("name", "Alice"));
    assert!(store.set_string("name", "Bob"));
    assert!(store.set_bool("is_student", true));
    assert!(!store.set_bool("is_student", true));
    assert_eq!(store.get_string("name").map(|s| s.as_str()), Some("Bob"));
    assert_eq!(store.get_bool("is_student"), Some(true));
    assert_eq!(store.drain_changed(FactKind::Str), vec!["name".to_string()]);
    assert_eq!(store.drain_changed(FactKind::Bool), vec!["is_student".to_string()]);
}

#[test]
fn add_to_set_is_a_set() {
    let mut store = FactStore::new();
    assert!(store.add_to_set("h", "a"));
    assert!(!store.add_to_set("h", "a"));
    let set = store.get_set("h").unwrap();
    assert_eq!(set.len(), 1);
    assert!(set.contains("a"));
    assert_eq!(set.to_vec(), vec!["a".to_string()]);
    assert_eq!(store.drain_changed(FactKind::StringSet), vec!["h".to_string()]);
}

#[test]
fn remove_from_set_cases() {
    let mut store = FactStore::new();
    assert!(!store.remove_from_set("none", "a"));
    assert!(store.get_set("none").is_none());
    store.add_to_set("hobbies", "reading");
    store.add_to_set("hobbies", "coding");
    store.drain_changed(FactKind::StringSet);
    assert!(!store.remove_from_set("hobbies", "gardening"));
    assert!(store.drain_changed(FactKind::StringSet).is_empty());
    assert!(store.remove_from_set("hobbies", "reading"));
    let set = store.get_set("hobbies").unwrap();
    assert_eq!(set.to_vec(), vec!["coding".to_string()]);
    assert_eq!(store.drain_changed(FactKind::StringSet), vec!["hobbies".to_string()]);
    assert!(store.remove_from_set("hobbies", "coding"));
    assert_eq!(store.get_set("hobbies").unwrap().len(), 0);
}

#[test]
fn drain_is_exclusive() {
    let mut store = FactStore::new();
    store.set_int("a", 1);
    store.set_int("b", 2);
    assert_eq!(ints_changed(&mut store), vec!["a".to_string(), "b".to_string()]);
    assert!(ints_changed(&mut store).is_empty());
    store.set_int("c", 3);
    assert_eq!(ints_changed(&mut store), vec!["c".to_string()]);
}

#[test]
fn reads_of_absent_keys() {
    let store = FactStore::new();
    assert_eq!(store.get_int("q"), None);
    assert!(store.get_string("q").is_none());
    assert_eq!(store.get_bool("q"), None);
    assert!(store.get_set("q").is_none());
}

#[test]
fn namespaces_are_separate() {
    let mut store = FactStore::new();
    store.set_int("k", 4);
    store.set_string("k", "four");
    assert_eq!(store.get_int("k"), Some(4));
    assert_eq!(store.get_string("k").map(|s| s.as_str()), Some("four"));
    assert_eq!(store.get_bool("k"), None);
}

#[test]
fn add_and_sub_int() {
    let mut store = FactStore::new();
    assert!(store.add_int("n", 5));
    assert!(store.sub_int("n", 8));
    assert_eq!(store.get_int("n"), Some(-3));
    assert!(!store.add_int("n", 0));
    assert!(store.add_int("big", i64::MAX));
    assert_eq!(store.get_int("big"), Some(i64::MAX));
}

#[test]
fn button_pressed_scenario() {
    let mut store = FactStore::new();
    store.set_int("button_pressed", 0);
    store.add_int("button_pressed", 1);
    store.add_int("button_pressed", 1);
    store.add_int("button_pressed", 1);
    assert_eq!(store.get_int("button_pressed"), Some(3));
    assert_eq!(ints_changed(&mut store), vec!["button_pressed".to_string()]);
}

#[test]
fn drain_updates_in_kind_order() {
    let mut store = FactStore::new();
    store.add_to_set("tags", "x");
    store.set_bool("on", true);
    store.set_string("name", "Alice");
    store.set_int("age", 30);
    store.set_int("count", 2);
    let updates = store.drain_updates();
    let keys: Vec<&str> = updates.iter().map(|u| u.key()).collect();
    assert_eq!(keys, vec!["age", "count", "name", "on", "tags"]);
    assert!(matches!(updates[0].fact, Fact::Int(30)));
    assert!(matches!(updates[1].fact, Fact::Int(2)));
    match &updates[2].fact {
        Fact::Str(s) => assert_eq!(s, "Alice"),
        other => panic!("unexpected {:?}", other),
    }
    assert!(matches!(updates[3].fact, Fact::Bool(true)));
    match &updates[4].fact {
        Fact::StringSet(s) => assert_eq!(s.to_vec(), vec!["x".to_string()]),
        other => panic!("unexpected {:?}", other),
    }
    assert!(store.drain_updates().is_empty());
}

#[test]
fn drain_updates_carry_current_value() {
    let mut store = FactStore::new();
    store.set_int("v", 1);
    store.set_int("v", 9);
    let updates = store.drain_updates();
    assert_eq!(updates.len(), 1);
    assert_eq!(updates[0].key, "v");
    assert!(matches!(updates[0].fact, Fact::Int(9)));
}
