use openrpsee::document::default as is_default;
use openrpsee::{Contact, Example, ExamplePairing, ParamStructure, Tag};
use serde_json::Value;

#[test]
fn tag_new_sets_only_the_name() {
    let t = Tag::new("public");
    assert_eq!(t.name, "public");
    assert!(t.summary.is_none());
    assert!(t.description.is_none());
    assert!(t.external_docs.is_none());
}

#[test]
fn default_detects_default_values() {
    assert!(is_default(&false));
    assert!(!is_default(&true));
    assert!(is_default(&ParamStructure::Either));
    assert!(!is_default(&ParamStructure::ByName));
    assert!(!is_default(&ParamStructure::ByPosition));
    assert!(is_default(&0u32));
    assert!(!is_default(&5u32));
    assert!(is_default(&String::new()));
}

#[test]
fn param_structure_default_is_either() {
    assert_eq!(ParamStructure::default(), ParamStructure::Either);
}

#[test]
fn example_pairing_new_names_params_and_result() {
    let p = ExamplePairing::new(
        "call",
        vec![("limit", Value::from(3)), ("any", Value::from("x"))],
        Value::Bool(true),
    );
    assert_eq!(p.name, "call");
    assert!(p.description.is_none());
    assert!(p.summary.is_none());
    assert_eq!(p.params.len(), 2);
    assert_eq!(p.params[0].name, "limit");
    assert_eq!(p.params[0].value, Value::from(3));
    assert!(p.params[0].summary.is_none());
    assert!(p.params[0].description.is_none());
    assert_eq!(p.params[1].name, "any");
    assert_eq!(p.params[1].value, Value::from("x"));
    assert_eq!(p.result.name, "Result");
    assert_eq!(p.result.value, Value::Bool(true));
    assert!(p.result.summary.is_none());
}

#[test]
fn example_pairing_without_params() {
    let p = ExamplePairing::new("empty", Vec::new(), Value::Null);
    assert!(p.params.is_empty());
    assert_eq!(p.result.name, "Result");
    assert_eq!(p.result.value, Value::Null);
}

#[test]
fn cloned_values_are_equal() {
    let e = Example {
        name: "n".to_string(),
        summary: None,
        description: None,
        value: Value::Array(vec![Value::from(1), Value::from("two")]),
    };
    let c = e.clone();
    assert_eq!(c.value, e.value);
    let contact = Contact { name: "FooMaker".into(), email: Some("foomaker@example.com".into()), ..Default::default() };
    let cc = contact.clone();
    assert_eq!(cc.name, "FooMaker");
    assert_eq!(cc.email.as_deref(), Some("foomaker@example.com"));
    assert!(cc.url.is_none());
}
