use dspy_rust::example::Example;
use dspy_rust::json::{fields_from_json, fields_to_json};
use dspy_rust::prediction::Prediction;
use dspy_rust::value::FieldValue;

fn s(v: &str) -> FieldValue {
    FieldValue::string(v)
}

#[test]
fn example_set_get() {
    let mut ex = Example::new();
    ex.set("name", s("Alice"));
    assert_eq!(ex.get_str("name"), Some("Alice"));
    assert!(ex.get("missing").is_none());
}

#[test]
fn example_with_builder() {
    let ex = Example::new()
        .with("a", s("1"))
        .with("b", s("2"));
    assert_eq!(ex.len(), 2);
    assert_eq!(ex.get_str("a"), Some("1"));
    assert_eq!(ex.get_str("b"), Some("2"));
}

#[test]
fn example_inputs() {
    let ex = Example::new()
        .with("question", s("What?"))
        .with("answer", s("42"))
        .with_inputs(vec!["question".to_string()]);

    let inputs = ex.inputs();
    assert!(inputs.contains_key("question"));
    assert!(!inputs.contains_key("answer"));
}

#[test]
fn example_clone_independent() {
    let ex = Example::new().with("x", s("1"));
    let mut cloned = ex.clone();
    cloned.set("x", s("2"));
    assert_eq!(ex.get_str("x"), Some("1"));
    assert_eq!(cloned.get_str("x"), Some("2"));
}

#[test]
fn example_keys_and_iter() {
    let ex = Example::new().with("a", s("1")).with("b", s("2"));
    let keys: Vec<String> = ex.keys();
    assert_eq!(keys.len(), 2);
    let pairs: Vec<_> = ex.iter().iter().collect();
    assert_eq!(pairs.len(), 2);
}

#[test]
fn example_remove() {
    let mut ex = Example::new().with("a", s("1")).with("b", s("2"));
    ex.remove("a");
    assert!(!ex.contains_key("a"));
    assert_eq!(ex.len(), 1);
}

#[test]
fn prediction_from_example() {
    let ex = Example::new().with("answer", s("Paris"));
    let pred = Prediction::from_example(ex);
    assert_eq!(pred.get_str("answer"), Some("Paris"));
    assert!(pred.completions().contains_key("answer"));
}

#[test]
fn prediction_set_and_get() {
    let mut pred = Prediction::new();
    pred.set("field", s("value"));
    assert_eq!(pred.get_str("field"), Some("value"));
}

#[test]
fn example_serialize_deserialize() {
    let ex = Example::new().with("question", s("What?")).with("answer", s("42"));
    let json = fields_to_json(&ex);
    let deserialized: Example = fields_from_json(&json).unwrap();
    assert_eq!(deserialized.get_str("question"), Some("What?"));
    assert_eq!(deserialized.get_str("answer"), Some("42"));
}
