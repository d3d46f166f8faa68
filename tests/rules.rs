use factoids::{Condition, FactStore, Rule};

fn age_student_rule() -> Rule {
    let mut rule = Rule::new();
    rule.add_condition(Condition::IntGreaterThan("age".to_string(), 17));
    rule.add_condition(Condition::BoolEquals("is_student".to_string(), true));
    rule
}

#[test]
fn absent_fact_and_negation() {
    let store = FactStore::new();
    let c = Condition::IntEquals("z".to_string(), 5);
    assert!(!c.evaluate(&store));
    let n = Condition::Not(Box::new(Condition::IntEquals("z".to_string(), 5)));
    assert!(n.evaluate(&store));
}

#[test]
fn conjunction_adult_student() {
    let mut store = FactStore::new();
    store.set_int("age", 20);
    store.set_bool("is_student", true);
    assert!(age_student_rule().evaluate(&store));
}

#[test]
fn conjunction_minor_student() {
    let mut store = FactStore::new();
    store.set_int("age", 15);
    store.set_bool("is_student", true);
    assert!(!age_student_rule().evaluate(&store));
}

#[test]
fn conjunction_adult_not_student() {
    let mut store = FactStore::new();
    store.set_int("age", 20);
    store.set_bool("is_student", false);
    assert!(!age_student_rule().evaluate(&store));
}

#[test]
fn empty_rule_holds() {
    let store = FactStore::new();
    assert!(Rule::new().evaluate(&store));
}

#[test]
fn each_condition_kind() {
    let mut store = FactStore::new();
    store.set_string("name", "Alice");
    store.set_int("age", 30);
    store.set_bool("is_student", true);
    store.add_to_set("hobbies", "reading");
    store.add_to_set("hobbies", "coding");
    assert!(Condition::StringEquals("name".to_string(), "Alice".to_string()).evaluate(&store));
    assert!(!Condition::StringEquals("name".to_string(), "Bob".to_string()).evaluate(&store));
    assert!(Condition::IntEquals("age".to_string(), 30).evaluate(&store));
    assert!(Condition::IntLessThan("age".to_string(), 31).evaluate(&store));
    assert!(!Condition::IntLessThan("age".to_string(), 30).evaluate(&store));
    assert!(!Condition::IntGreaterThan("age".to_string(), 30).evaluate(&store));
    assert!(Condition::SetContains("hobbies".to_string(), "reading".to_string()).evaluate(&store));
    assert!(!Condition::SetContains("hobbies".to_string(), "gardening".to_string()).evaluate(&store));
    assert!(!Condition::SetContains("none".to_string(), "reading".to_string()).evaluate(&store));
    assert!(!Condition::BoolEquals("other".to_string(), false).evaluate(&store));
    let double = Condition::Not(Box::new(Condition::Not(Box::new(Condition::IntEquals(
        "age".to_string(),
        30,
    )))));
    assert!(double.evaluate(&store));
}

#[test]
fn full_profile_rule() {
    let mut store = FactStore::new();
    store.set_string("name", "Alice");
    store.set_bool("is_student", true);
    store.add_to_set("hobbies", "reading");
    let mut rule = Rule::new();
    rule.add_condition(Condition::StringEquals("name".to_string(), "Alice".to_string()));
    rule.add_condition(Condition::BoolEquals("is_student".to_string(), true));
    rule.add_condition(Condition::SetContains("hobbies".to_string(), "reading".to_string()));
    assert!(rule.evaluate(&store));
    store.remove_from_set("hobbies", "reading");
    assert!(!rule.evaluate(&store));
}
