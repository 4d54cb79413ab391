use openrpsee::{
    Contact, ContentDescriptor, ExamplePairing, Module, NameMap, Project, RpcModuleDocBuilder,
    OPENRPC_VERSION,
};
use serde_json::Value;

fn descriptor(builder: &mut RpcModuleDocBuilder, name: &str) -> ContentDescriptor {
    let schema = builder.schema_generator.subschema_for::<u32>();
    builder.create_content_descriptor(name, None, None, true, schema)
}

fn module_with(names: &[&str], namespace: Option<&str>) -> Module {
    let mut b = RpcModuleDocBuilder::default();
    for n in names {
        let p = descriptor(&mut b, "idx");
        b.add_method(namespace, n, vec![p], None, "", None, false);
    }
    b.build()
}

#[test]
fn builder_sets_the_fields() {
    let mut project = Project::builder("My JSON-RPC API".into(), "0.1.0".into());
    project
        .description("API for interaction with my beautiful backend".into())
        .license("Apache-2.0".into())
        .contact(Contact {
            name: "FooMaker".into(),
            email: Some("foomaker@example.com".into()),
            ..Default::default()
        });
    let p = project.build();
    assert_eq!(p.openrpc, "1.3.2");
    assert_eq!(OPENRPC_VERSION, "1.3.2");
    assert_eq!(p.info.title, "My JSON-RPC API");
    assert_eq!(p.info.version, "0.1.0");
    assert_eq!(p.info.description.as_deref(), Some("API for interaction with my beautiful backend"));
    let license = p.info.license.as_ref().unwrap();
    assert_eq!(license.name, "Apache-2.0");
    assert!(license.url.is_none());
    let contact = p.info.contact.as_ref().unwrap();
    assert_eq!(contact.name, "FooMaker");
    assert_eq!(contact.email.as_deref(), Some("foomaker@example.com"));
    assert!(p.info.terms_of_service.is_none());
    assert!(p.methods.is_empty());
    assert!(p.external_docs.is_none());
    assert!(p.components.schemas.is_empty());
}

#[test]
fn builder_later_setting_wins() {
    let mut b = Project::builder("t".into(), "1".into());
    b.license("MIT".into()).license_with_url("Apache-2.0".into(), "https://apache.org".into());
    b.external_docs("https://a".into());
    b.external_docs_with_description("https://b".into(), "docs".into());
    b.terms_of_service("tos".into());
    let p = b.build();
    let l = p.info.license.unwrap();
    assert_eq!(l.name, "Apache-2.0");
    assert_eq!(l.url.as_deref(), Some("https://apache.org"));
    let d = p.external_docs.unwrap();
    assert_eq!(d.url, "https://b");
    assert_eq!(d.description.as_deref(), Some("docs"));
    assert_eq!(p.info.terms_of_service.as_deref(), Some("tos"));
}

#[test]
fn builder_external_docs_without_description() {
    let mut b = Project::builder("t".into(), "1".into());
    b.external_docs("https://a".into());
    let d = b.build().external_docs.unwrap();
    assert_eq!(d.url, "https://a");
    assert!(d.description.is_none());
}

#[test]
fn project_new_fills_info() {
    let p = Project::new("2.0", "API", "desc", "me", "https://me", "me@x", "MIT", "https://mit");
    assert_eq!(p.openrpc, "1.3.2");
    assert_eq!(p.info.version, "2.0");
    assert_eq!(p.info.title, "API");
    assert_eq!(p.info.description.as_deref(), Some("desc"));
    let c = p.info.contact.unwrap();
    assert_eq!(c.name, "me");
    assert_eq!(c.url.as_deref(), Some("https://me"));
    assert_eq!(c.email.as_deref(), Some("me@x"));
    let l = p.info.license.unwrap();
    assert_eq!(l.name, "MIT");
    assert_eq!(l.url.as_deref(), Some("https://mit"));
    assert!(p.info.terms_of_service.is_none());
    assert!(p.methods.is_empty());
    assert!(p.components.content_descriptors.is_empty());
    assert!(p.components.errors.is_empty());
    assert!(p.external_docs.is_none());
}

#[test]
fn add_module_sorts_methods_stably() {
    let mut p = Project::builder("t".into(), "1".into()).build();
    p.add_module(module_with(&["b", "a"], None));
    p.add_module(module_with(&["c", "a"], None));
    let names: Vec<&str> = p.methods.iter().map(|m| m.name.as_str()).collect();
    assert_eq!(names, vec!["a", "a", "b", "c"]);
    // The first "a" is the one of the first module: both are equal here, so tell them apart
    // by a module whose methods differ.
    let mut q = Project::builder("t".into(), "1".into()).build();
    let mut b1 = RpcModuleDocBuilder::default();
    b1.add_method(None, "same", vec![], None, "first", None, false);
    let mut b2 = RpcModuleDocBuilder::default();
    b2.add_method(None, "same", vec![], None, "second", None, true);
    b2.add_method(None, "early", vec![], None, "", None, false);
    q.add_module(b1.build());
    q.add_module(b2.build());
    let names: Vec<&str> = q.methods.iter().map(|m| m.name.as_str()).collect();
    assert_eq!(names, vec!["early", "same", "same"]);
    assert_eq!(q.methods[1].description.as_deref(), Some("first"));
    assert_eq!(q.methods[2].description.as_deref(), Some("second"));
}

#[test]
fn add_module_merges_components() {
    let mut p = Project::builder("t".into(), "1".into()).build();
    let mut m = module_with(&["x"], None);
    m.components.schemas.insert("S".to_string(), Value::from(1));
    let c = ContentDescriptor { name: "cd".into(), ..Default::default() };
    m.components.content_descriptors.insert("cd".to_string(), c);
    p.add_module(m);
    let mut m2 = module_with(&[], None);
    m2.components.schemas.insert("S".to_string(), Value::from(2));
    m2.components.schemas.insert("T".to_string(), Value::from(3));
    p.add_module(m2);
    assert_eq!(p.components.schemas.len(), 2);
    assert_eq!(p.components.schemas.get("S"), Some(&Value::from(2)));
    assert_eq!(p.components.schemas.get("T"), Some(&Value::from(3)));
    assert!(p.components.content_descriptors.contains_key("cd"));
}

fn project_with(names: &[&str]) -> Project {
    let mut p = Project::builder("t".into(), "1".into()).build();
    p.add_module(module_with(names, None));
    p
}

#[test]
fn add_examples_gives_examples_to_first_method_of_a_name() {
    let mut p = project_with(&["foo", "bar"]);
    p.add_module(module_with(&["foo"], None));
    // methods sorted: bar, foo, foo
    let mut provider: NameMap<Vec<ExamplePairing>> = NameMap::new();
    provider.insert(
        "foo".to_string(),
        vec![ExamplePairing::new("e1", vec![("idx", Value::from(1))], Value::from(2))],
    );
    assert_eq!(p.first_misfit_example(&provider), None);
    let missing = p.add_examples(provider);
    assert_eq!(missing, vec!["bar".to_string(), "foo".to_string()]);
    assert!(p.methods[0].examples.is_empty());
    assert_eq!(p.methods[1].examples.len(), 1);
    assert_eq!(p.methods[1].examples[0].name, "e1");
    assert!(p.methods[2].examples.is_empty());
}

#[test]
fn add_examples_ignores_names_without_methods() {
    let mut p = project_with(&["foo"]);
    let mut provider: NameMap<Vec<ExamplePairing>> = NameMap::new();
    provider.insert("other".to_string(), vec![ExamplePairing::new("e", vec![], Value::Null)]);
    let missing = p.add_examples(provider);
    assert_eq!(missing, vec!["foo".to_string()]);
    assert!(p.methods[0].examples.is_empty());
}

#[test]
fn examples_that_do_not_fit_are_detected() {
    let p = project_with(&["foo"]);
    let mut provider: NameMap<Vec<ExamplePairing>> = NameMap::new();
    provider.insert(
        "foo".to_string(),
        vec![ExamplePairing::new("e", vec![("wrong", Value::Null)], Value::Null)],
    );
    assert_eq!(p.first_misfit_example(&provider), Some((0, 0)));
    let mut too_many: NameMap<Vec<ExamplePairing>> = NameMap::new();
    too_many.insert(
        "foo".to_string(),
        vec![ExamplePairing::new("e", vec![("idx", Value::Null), ("x", Value::Null)], Value::Null)],
    );
    assert_eq!(p.first_misfit_example(&too_many), Some((0, 0)));
}

#[test]
fn add_module_order_matches_std_stable_sort() {
    let first = ["delta", "alpha", "Beta", "alpha2", "é", "z"];
    let second = ["alpha", "delta", "a", "Beta"];
    let mut p = Project::builder("t".into(), "1".into()).build();
    let mut b1 = RpcModuleDocBuilder::default();
    for n in first {
        b1.add_method(None, n, vec![], None, "1", None, false);
    }
    let mut b2 = RpcModuleDocBuilder::default();
    for n in second {
        b2.add_method(None, n, vec![], None, "2", None, false);
    }
    let m1 = b1.build();
    let m2 = b2.build();
    let mut expected: Vec<(String, Option<String>)> = m1
        .methods
        .iter()
        .chain(m2.methods.iter())
        .map(|m| (m.name.clone(), m.description.clone()))
        .collect();
    p.add_module(m1);
    p.add_module(m2);
    expected.sort_by(|a, b| a.0.cmp(&b.0));
    let got: Vec<(String, Option<String>)> =
        p.methods.iter().map(|m| (m.name.clone(), m.description.clone())).collect();
    assert_eq!(got, expected);
}

#[test]
fn add_examples_changes_only_examples() {
    let mut p = project_with(&["foo", "bar"]);
    let before: Vec<(String, usize, Option<String>)> = p
        .methods
        .iter()
        .map(|m| (m.name.clone(), m.params.len(), m.description.clone()))
        .collect();
    let mut provider: NameMap<Vec<ExamplePairing>> = NameMap::new();
    provider.insert(
        "bar".to_string(),
        vec![
            ExamplePairing::new("e1", vec![("idx", Value::from(1))], Value::from(2)),
            ExamplePairing::new("e2", vec![("idx", Value::from(3))], Value::from(4)),
        ],
    );
    let missing = p.add_examples(provider);
    assert_eq!(missing, vec!["foo".to_string()]);
    let after: Vec<(String, usize, Option<String>)> = p
        .methods
        .iter()
        .map(|m| (m.name.clone(), m.params.len(), m.description.clone()))
        .collect();
    assert_eq!(before, after);
    assert_eq!(p.methods[0].examples.len(), 2);
    assert_eq!(p.methods[0].examples[1].name, "e2");
}

#[test]
fn cloned_descriptor_keeps_schema() {
    let mut b = RpcModuleDocBuilder::default();
    let c = descriptor(&mut b, "a b");
    let d = c.clone();
    assert_eq!(d.schema, c.schema);
    assert_eq!(d.name, "ab");
}

#[test]
fn first_misfit_is_the_earliest() {
    let p = project_with(&["a", "b"]);
    let mut provider: NameMap<Vec<ExamplePairing>> = NameMap::new();
    provider.insert(
        "b".to_string(),
        vec![
            ExamplePairing::new("ok", vec![("idx", Value::Null)], Value::Null),
            ExamplePairing::new("bad", vec![], Value::Null),
            ExamplePairing::new("bad2", vec![("y", Value::Null)], Value::Null),
        ],
    );
    assert_eq!(p.first_misfit_example(&provider), Some((1, 1)));
}

#[test]
fn examples_twice_change_nothing_more() {
    let mut p = project_with(&["foo", "bar"]);
    let make = || {
        let mut provider: NameMap<Vec<ExamplePairing>> = NameMap::new();
        provider.insert(
            "foo".to_string(),
            vec![ExamplePairing::new("e1", vec![("idx", Value::from(1))], Value::from(2))],
        );
        provider
    };
    let first = p.add_examples(make());
    let names: Vec<(String, usize)> = p.methods.iter().map(|m| (m.name.clone(), m.examples.len())).collect();
    let second = p.add_examples(make());
    let again: Vec<(String, usize)> = p.methods.iter().map(|m| (m.name.clone(), m.examples.len())).collect();
    assert_eq!(first, second);
    assert_eq!(names, again);
}

#[test]
fn module_order_does_not_change_names() {
    let mut p1 = project_with(&["m", "c"]);
    let mut p2 = project_with(&["m", "c"]);
    p1.add_module(module_with(&["b", "m"], None));
    p1.add_module(module_with(&["a", "z"], None));
    p2.add_module(module_with(&["a", "z"], None));
    p2.add_module(module_with(&["b", "m"], None));
    let n1: Vec<&str> = p1.methods.iter().map(|m| m.name.as_str()).collect();
    let n2: Vec<&str> = p2.methods.iter().map(|m| m.name.as_str()).collect();
    assert_eq!(n1, n2);
    assert_eq!(n1, vec!["a", "b", "c", "m", "m", "z"]);
}

#[test]
fn distinct_module_names_stay_unique() {
    let mut p = project_with(&["b", "d"]);
    p.add_module(module_with(&["a", "c", "e"], Some("x")));
    let names: Vec<&str> = p.methods.iter().map(|m| m.name.as_str()).collect();
    assert_eq!(names, vec!["b", "d", "x_a", "x_c", "x_e"]);
    assert_eq!(p.openrpc, "1.3.2");
}
