use openrpsee::{RpcModuleDocBuilder, ParamStructure};

#[test]
fn add_method_records_the_method() {
    let mut b = RpcModuleDocBuilder::default();
    let schema = b.schema_generator.subschema_for::<Option<u32>>();
    let limit = b.create_content_descriptor("limit", Some("sum".into()), None, false, schema);
    let schema = b.schema_generator.subschema_for::<bool>();
    let result = b.create_content_descriptor("Foo Res", None, Some("d".into()), true, schema);
    assert_eq!(result.name, "FooRes");
    b.add_method(
        Some("myrpc"),
        "foo",
        vec![limit],
        Some(result),
        " # This method does the foo!\n\n And it does it really well!\n",
        Some("public".to_string()),
        false,
    );
    let m = b.methods.get("myrpc_foo").unwrap();
    assert_eq!(m.name, "myrpc_foo");
    assert_eq!(
        m.description.as_deref(),
        Some("# This method does the foo!\n\n And it does it really well!")
    );
    assert_eq!(m.tags.len(), 1);
    assert_eq!(m.tags[0].name, "public");
    assert_eq!(m.params.len(), 1);
    assert_eq!(m.params[0].name, "limit");
    assert_eq!(m.params[0].summary.as_deref(), Some("sum"));
    assert!(!m.params[0].required);
    assert!(!m.params[0].deprecated);
    assert_eq!(m.result.as_ref().unwrap().name, "FooRes");
    assert!(m.result.as_ref().unwrap().required);
    assert!(!m.deprecated);
    assert!(m.examples.is_empty());
    assert!(m.errors.is_empty());
    assert!(m.summary.is_none());
    assert!(m.external_docs.is_none());
    assert_eq!(m.param_structure, ParamStructure::Either);
}

#[test]
fn blank_doc_gives_no_description() {
    let mut b = RpcModuleDocBuilder::default();
    b.add_method(None, "bare", vec![], None, "  \n\t ", None, true);
    let m = b.methods.get("bare").unwrap();
    assert!(m.description.is_none());
    assert!(m.tags.is_empty());
    assert!(m.deprecated);
}

#[test]
fn add_subscription_adds_pubsub_tags() {
    let mut b = RpcModuleDocBuilder::default();
    b.add_subscription(Some("myrpc"), "subscribe_bar", vec![], None, "This is a subscription", Some("public".into()), false);
    b.add_subscription(None, "plain", vec![], None, "", None, false);
    let m = b.methods.get("myrpc_subscribe_bar").unwrap();
    let tags: Vec<&str> = m.tags.iter().map(|t| t.name.as_str()).collect();
    assert_eq!(tags, vec!["public", "Websocket", "PubSub"]);
    assert_eq!(m.description.as_deref(), Some("This is a subscription"));
    let p = b.methods.get("plain").unwrap();
    let tags: Vec<&str> = p.tags.iter().map(|t| t.name.as_str()).collect();
    assert_eq!(tags, vec!["Websocket", "PubSub"]);
}

#[test]
fn same_name_replaces_earlier_method() {
    let mut b = RpcModuleDocBuilder::default();
    b.add_method(Some("ns"), "m", vec![], None, "first", None, false);
    b.add_method(Some("ns"), "m", vec![], None, "second", None, false);
    assert_eq!(b.methods.len(), 1);
    let module = b.build();
    assert_eq!(module.methods.len(), 1);
    assert_eq!(module.methods[0].description.as_deref(), Some("second"));
}

#[test]
fn build_lists_methods_by_name() {
    let mut b = RpcModuleDocBuilder::default();
    for n in ["zeta", "alpha", "Mid", "beta"] {
        b.add_method(None, n, vec![], None, "", None, false);
    }
    let schema = b.schema_generator.subschema_for::<u8>();
    let cd = b.create_content_descriptor("x", None, None, true, schema);
    b.content_descriptors.insert("x".to_string(), cd);
    let module = b.build();
    let names: Vec<&str> = module.methods.iter().map(|m| m.name.as_str()).collect();
    assert_eq!(names, vec!["Mid", "alpha", "beta", "zeta"]);
    assert!(module.components.errors.is_empty());
    assert_eq!(module.components.content_descriptors.len(), 1);
}

#[test]
fn definitions_path_points_into_components() {
    let b = RpcModuleDocBuilder::default();
    assert_eq!(b.schema_generator.settings().definitions_path, "#/components/schemas/");
}

#[test]
fn fresh_builder_builds_an_empty_module() {
    let b = RpcModuleDocBuilder::default();
    assert!(b.methods.is_empty());
    assert!(b.content_descriptors.is_empty());
    assert!(b.schema_generator.definitions().is_empty());
    let m = b.build();
    assert!(m.methods.is_empty());
    assert!(m.components.content_descriptors.is_empty());
    assert!(m.components.schemas.is_empty());
    assert!(m.components.errors.is_empty());
}

#[test]
fn build_hands_on_the_schema_definitions() {
    let mut b = RpcModuleDocBuilder::default();
    b.schema_generator
        .definitions_mut()
        .insert("Bar".to_string(), serde_json::Value::from("object"));
    b.schema_generator
        .definitions_mut()
        .insert("Alpha".to_string(), serde_json::Value::Bool(true));
    let m = b.build();
    assert_eq!(m.components.schemas.len(), 2);
    assert_eq!(m.components.schemas.get("Alpha"), Some(&serde_json::Value::Bool(true)));
    assert!(m.components.schemas.contains_key("Bar"));
}

#[test]
fn builder_methods_are_plain() {
    let mut b = RpcModuleDocBuilder::default();
    b.add_method(Some("n"), "m", vec![], None, "d", Some("t".into()), true);
    b.add_subscription(None, "s", vec![], None, "", None, false);
    let m = b.build();
    for method in &m.methods {
        assert!(method.examples.is_empty());
        assert!(method.errors.is_empty());
        assert_eq!(method.param_structure, ParamStructure::Either);
    }
    assert!(m.components.content_descriptors.is_empty());
}

#[test]
fn generator_keeps_schemars_default_settings() {
    let b = RpcModuleDocBuilder::default();
    let settings = b.schema_generator.settings();
    assert_eq!(
        settings.meta_schema.as_deref(),
        Some(openrpsee::external::DRAFT_2020_12_META_SCHEMA)
    );
    assert_eq!(settings.meta_schema.as_deref(), Some("https://json-schema.org/draft/2020-12/schema"));
    assert!(settings.transforms.is_empty());
    assert!(!settings.inline_subschemas);
    assert!(matches!(settings.contract, schemars::generate::Contract::Deserialize));
    assert!(!settings.untagged_enum_variant_titles);
}
