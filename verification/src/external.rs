//! The outside types that the document carries: JSON values, JSON schemas and the schema
//! generator. Their contents are opaque here: the library moves them, it does not read them.

use vstd::prelude::*;

use crate::name_map::{entry_keys, entry_pairs, insert_all, strictly_increasing};

verus! {

/// `serde_json::Value`: an example value, an error's data, a schema definition.
#[verifier::external_type_specification]
#[verifier::external_body]
pub struct ExJsonValue(serde_json::Value);

/// `schemars::Schema`: the JSON schema of a parameter or a result.
#[verifier::external_type_specification]
#[verifier::external_body]
pub struct ExJsonSchema(schemars::Schema);

/// `schemars::SchemaGenerator`: collects the definitions of the schemas it generates.
#[verifier::external_type_specification]
#[verifier::external_body]
pub struct ExJsonSchemaGenerator(schemars::SchemaGenerator);

/// `Clone::clone` of `serde_json::Value`, which serde_json derives: the clone is the same
/// JSON value.
pub assume_specification[ <serde_json::Value as Clone>::clone ](v: &serde_json::Value) -> (r:
    serde_json::Value)
    ensures
        r == *v,
;

/// `Clone::clone` of `schemars::Schema`, which schemars derives over the JSON value that the
/// schema wraps: the clone is the same schema.
pub assume_specification[ <schemars::Schema as Clone>::clone ](s: &schemars::Schema) -> (r:
    schemars::Schema)
    ensures
        r == *s,
;

/// The schema definitions that a generator holds, by name: the definitions map of a
/// `schemars::SchemaGenerator`.
pub uninterp spec fn schema_definitions(g: schemars::SchemaGenerator) -> Map<Seq<char>, serde_json::Value>;

/// The path under which a generator refers to its definitions: the `definitions_path` of the
/// settings of a `schemars::SchemaGenerator`.
pub uninterp spec fn definitions_path_of(g: schemars::SchemaGenerator) -> Seq<char>;

/// The meta-schema that a generator's schemas declare: `settings.meta_schema`.
pub uninterp spec fn meta_schema_of(g: schemars::SchemaGenerator) -> Option<Seq<char>>;

/// How many transforms a generator applies to root schemas: the length of
/// `settings.transforms`.
pub uninterp spec fn transform_count_of(g: schemars::SchemaGenerator) -> nat;

/// Whether a generator inlines all subschemas: `settings.inline_subschemas`.
pub uninterp spec fn inlines_subschemas(g: schemars::SchemaGenerator) -> bool;

/// Whether a generator's schemas describe how types are deserialized: `settings.contract` is
/// `Contract::Deserialize`.
pub uninterp spec fn describes_deserialization(g: schemars::SchemaGenerator) -> bool;

/// Whether a generator puts variant names in the titles of untagged enums:
/// `settings.untagged_enum_variant_titles`.
pub uninterp spec fn titles_untagged_variants(g: schemars::SchemaGenerator) -> bool;

/// The URI of the JSON Schema draft 2020-12 meta-schema.
pub const DRAFT_2020_12_META_SCHEMA: &'static str = "https://json-schema.org/draft/2020-12/schema";

/// Calls `schemars::generate::SchemaSettings::default()`, sets its `definitions_path` to
/// `definitions_path`, and makes a generator of it with `SchemaSettings::into_generator`,
/// that is `SchemaGenerator::new`: the generator keeps these settings and starts with no
/// definitions. Of the other settings, those of `SchemaSettings::default()`, nothing is
/// claimed.
#[verifier::external_body]
pub(crate) fn schema_generator_with_definitions_path(definitions_path: String) -> (g:
    schemars::SchemaGenerator)
    ensures
        schema_definitions(g).dom() == Set::<Seq<char>>::empty(),
        definitions_path_of(g) == definitions_path@,
        meta_schema_of(g) == Some(DRAFT_2020_12_META_SCHEMA@),
        transform_count_of(g) == 0,
        !inlines_subschemas(g),
        describes_deserialization(g),
        !titles_untagged_variants(g),
{
    let mut settings = schemars::generate::SchemaSettings::default();
    settings.definitions_path = definitions_path.into();
    settings.into_generator()
}

/// Calls `schemars::SchemaGenerator::take_definitions(false)`, which takes the generator's
/// definitions map and leaves an empty one in its place, and hands its entries out as pairs.
/// The map is a `serde_json::Map`, ordered by key, so the pairs come in strictly increasing
/// name order; inserted in order they give back the definitions. The settings stay, the
/// transforms not being applied.
#[verifier::external_body]
pub(crate) fn take_schema_definitions(generator: &mut schemars::SchemaGenerator) -> (r: Vec<
    (String, serde_json::Value),
>)
    ensures
        insert_all(Map::empty(), entry_pairs(r@)) == schema_definitions(*old(generator)),
        strictly_increasing(entry_keys(r@)),
        schema_definitions(*final(generator)).dom() == Set::<Seq<char>>::empty(),
        definitions_path_of(*final(generator)) == definitions_path_of(*old(generator)),
        meta_schema_of(*final(generator)) == meta_schema_of(*old(generator)),
        transform_count_of(*final(generator)) == transform_count_of(*old(generator)),
        inlines_subschemas(*final(generator)) == inlines_subschemas(*old(generator)),
        describes_deserialization(*final(generator)) == describes_deserialization(*old(generator)),
        titles_untagged_variants(*final(generator)) == titles_untagged_variants(*old(generator)),
{
    generator.take_definitions(false).into_iter().collect()
}

} // verus!
