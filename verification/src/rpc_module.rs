//! `RpcModuleDocBuilder`: collects the methods of one RPC module and builds its `Module`.

use vstd::prelude::*;

use crate::document::{
    map_view, opt_view, seq_view, tag_named, Components, ComponentsModel, ContentDescriptor,
    ContentDescriptorModel, Method, MethodModel, ParamStructure, Tag, TagModel,
};
use crate::external::{
    definitions_path_of, describes_deserialization, inlines_subschemas, meta_schema_of,
    schema_definitions, schema_generator_with_definitions_path, take_schema_definitions,
    titles_untagged_variants, transform_count_of, DRAFT_2020_12_META_SCHEMA,
};
use crate::name_map::{strictly_increasing, NameMap};
use crate::text::{remove_spaces, trim, trimmed, without_spaces};

verus! {

/// The documentation of one RPC module: its methods and the components they use.
#[derive(Debug)]
pub struct Module {
    pub methods: Vec<Method>,
    pub components: Components,
}

pub struct ModuleModel {
    pub methods: Seq<MethodModel>,
    pub components: ComponentsModel,
}

impl View for Module {
    type V = ModuleModel;

    open spec fn view(&self) -> ModuleModel {
        ModuleModel { methods: seq_view(self.methods@), components: self.components@ }
    }
}

/// Where the schema generator says that schema definitions are found in a document.
pub const SCHEMA_DEFINITIONS_PATH: &'static str = "#/components/schemas/";

/// Collects the methods of an RPC module, each under its full name, and the schemas that
/// their parameters and results use.
pub struct RpcModuleDocBuilder {
    pub schema_generator: schemars::SchemaGenerator,
    pub methods: NameMap<Method>,
    pub content_descriptors: NameMap<ContentDescriptor>,
}

pub struct RpcModuleDocModel {
    pub methods: Map<Seq<char>, MethodModel>,
    pub content_descriptors: Map<Seq<char>, ContentDescriptorModel>,
    /// The schema definitions that the generator has collected.
    pub schema_definitions: Map<Seq<char>, serde_json::Value>,
    /// Where the generator says that its definitions are found.
    pub definitions_path: Seq<char>,
    /// The meta-schema that the generated schemas declare.
    pub meta_schema: Option<Seq<char>>,
    /// How many transforms the generator applies to root schemas.
    pub transform_count: nat,
    /// Whether the generator inlines all subschemas.
    pub inline_subschemas: bool,
    /// Whether the generated schemas describe deserialization.
    pub describes_deserialization: bool,
    /// Whether untagged enum variants get their names as titles.
    pub untagged_enum_variant_titles: bool,
}

impl View for RpcModuleDocBuilder {
    type V = RpcModuleDocModel;

    open spec fn view(&self) -> RpcModuleDocModel {
        RpcModuleDocModel {
            methods: map_view(self.methods@),
            content_descriptors: map_view(self.content_descriptors@),
            schema_definitions: schema_definitions(self.schema_generator),
            definitions_path: definitions_path_of(self.schema_generator),
            meta_schema: meta_schema_of(self.schema_generator),
            transform_count: transform_count_of(self.schema_generator),
            inline_subschemas: inlines_subschemas(self.schema_generator),
            describes_deserialization: describes_deserialization(self.schema_generator),
            untagged_enum_variant_titles: titles_untagged_variants(self.schema_generator),
        }
    }
}

/// Every method is held under its own name.
pub open spec fn keyed_by_name(methods: Map<Seq<char>, MethodModel>) -> bool {
    forall|k: Seq<char>| #[trigger] methods.contains_key(k) ==> methods[k].name == k
}

/// A method as the builder records it: no examples, no errors, parameters passed either way.
pub open spec fn plain_method(m: MethodModel) -> bool {
    &&& m.examples.len() == 0
    &&& m.errors.len() == 0
    &&& m.param_structure == ParamStructure::Either
}

/// Every method is held under its own name and recorded plainly.
pub open spec fn recorded_plainly(methods: Map<Seq<char>, MethodModel>) -> bool {
    forall|k: Seq<char>| #[trigger]
        methods.contains_key(k) ==> methods[k].name == k && plain_method(methods[k])
}

/// What holds of every builder made by `default` and changed only by `add_method` and
/// `add_subscription`: its methods are recorded plainly, and it holds no content descriptor.
pub open spec fn only_recorded_methods(b: RpcModuleDocModel) -> bool {
    &&& recorded_plainly(b.methods)
    &&& b.content_descriptors.dom() == Set::<Seq<char>>::empty()
}

/// `s` lists the methods of `methods` once each, in strictly increasing order of name.
pub open spec fn listed_in_name_order(
    s: Seq<MethodModel>,
    methods: Map<Seq<char>, MethodModel>,
) -> bool {
    &&& strictly_increasing(s.map_values(|m: MethodModel| m.name))
    &&& forall|i: int| 0 <= i < s.len() ==> #[trigger] methods.contains_key(s[i].name) && methods[s[i].name] == s[i]
    &&& forall|k: Seq<char>| #[trigger] methods.contains_key(k) ==> exists|i: int| 0 <= i < s.len() && #[trigger] s[i].name == k
}

/// The full name of a method: `namespace_name`, or `name` alone without a namespace.
pub open spec fn method_name(namespace: Option<Seq<char>>, name: Seq<char>) -> Seq<char> {
    match namespace {
        Some(ns) => ns + seq!['_'] + name,
        None => name,
    }
}

/// The description that a method's doc text gives: the text trimmed, if anything is left.
pub open spec fn method_description(doc: Seq<char>) -> Option<Seq<char>> {
    if trim(doc).len() == 0 {
        None
    } else {
        Some(trim(doc))
    }
}

/// The tags of a method: the given tag, if any.
pub open spec fn method_tags(tag: Option<Seq<char>>) -> Seq<TagModel> {
    match tag {
        Some(t) => seq![tag_named(t)],
        None => Seq::empty(),
    }
}

/// The tags of a subscription: the given tag, if any, then "Websocket" and "PubSub".
pub open spec fn subscription_tags(tag: Option<Seq<char>>) -> Seq<TagModel> {
    method_tags(tag) + seq![
        tag_named(seq!['W', 'e', 'b', 's', 'o', 'c', 'k', 'e', 't']),
        tag_named(seq!['P', 'u', 'b', 'S', 'u', 'b']),
    ]
}

/// The method that the builder records for the given name, parameters, result, doc text,
/// tags and deprecation.
pub open spec fn documented_method(
    name: Seq<char>,
    params: Seq<ContentDescriptorModel>,
    result: Option<ContentDescriptorModel>,
    doc: Seq<char>,
    tags: Seq<TagModel>,
    deprecated: bool,
) -> MethodModel {
    MethodModel {
        name,
        tags,
        summary: None,
        description: method_description(doc),
        external_docs: None,
        params,
        result,
        deprecated,
        errors: Seq::empty(),
        param_structure: ParamStructure::Either,
        examples: Seq::empty(),
    }
}

/// The content descriptor that the builder makes of its arguments.
pub open spec fn described_content(
    name: Seq<char>,
    summary: Option<Seq<char>>,
    description: Option<Seq<char>>,
    required: bool,
    schema: schemars::Schema,
) -> ContentDescriptorModel {
    ContentDescriptorModel {
        name: without_spaces(name),
        summary,
        description,
        required,
        schema,
        deprecated: false,
    }
}

/// A builder starts with every method under its own name (it has none), and `add_method` and
/// `add_subscription` keep it so; `build` then lists the methods once each, by name.
pub proof fn law_new_builder_is_keyed_by_name()
    ensures
        keyed_by_name(Map::empty()),
{
}

/// The method that the builder records carries the full name under which it is held, no
/// examples, no errors, and parameters passed either way.
pub proof fn law_recorded_method_is_plain(
    namespace: Option<Seq<char>>,
    name: Seq<char>,
    params: Seq<ContentDescriptorModel>,
    result: Option<ContentDescriptorModel>,
    doc: Seq<char>,
    tags: Seq<TagModel>,
    deprecated: bool,
)
    ensures
        documented_method(method_name(namespace, name), params, result, doc, tags, deprecated).name
            == method_name(namespace, name),
        plain_method(
            documented_method(method_name(namespace, name), params, result, doc, tags, deprecated),
        ),
{
}

/// The values of a map of methods, in order, and its view.
proof fn lemma_listed(m: NameMap<Method>)
    requires
        m.ordered(),
        keyed_by_name(map_view(m@)),
    ensures
        listed_in_name_order(seq_view(m.values_in_order()), map_view(m@)),
{
    m.lemma_in_order();
    let ks = m.keys_in_order();
    let vs = m.values_in_order();
    let s = seq_view(vs);
    let mv = map_view(m@);
    assert forall|i: int| 0 <= i < s.len() implies s[i].name == ks[i] by {
        assert(m@.contains_key(ks[i]) && m@[ks[i]] == vs[i]);
        assert(mv.contains_key(ks[i]));
    }
    assert(s.map_values(|x: MethodModel| x.name) =~= ks);
    assert forall|i: int| 0 <= i < s.len() implies #[trigger] mv.contains_key(s[i].name) && mv[s[i].name] == s[i] by {
        assert(m@.contains_key(ks[i]) && m@[ks[i]] == vs[i]);
    }
    assert forall|k: Seq<char>| #[trigger] mv.contains_key(k) implies exists|i: int| 0 <= i < s.len() && #[trigger] s[i].name == k by {
        assert(m@.contains_key(k));
        assert(ks.contains(k));
        let i = ks.index_of(k);
        assert(s[i].name == ks[i]);
    }
}

impl Default for RpcModuleDocBuilder {
    /// A builder with no method and no content descriptor, whose schema generator holds no
    /// definitions, refers to them under `SCHEMA_DEFINITIONS_PATH`, and otherwise has the
    /// default settings of schemars: draft 2020-12, no transforms, no inlining, the
    /// deserialization contract, no variant titles.
    fn default() -> (b: Self)
        ensures
            b@.methods.dom() == Set::<Seq<char>>::empty(),
            b@.content_descriptors.dom() == Set::<Seq<char>>::empty(),
            b@.schema_definitions.dom() == Set::<Seq<char>>::empty(),
            b@.definitions_path == SCHEMA_DEFINITIONS_PATH@,
            b@.meta_schema == Some(DRAFT_2020_12_META_SCHEMA@),
            b@.transform_count == 0,
            !b@.inline_subschemas,
            b@.describes_deserialization,
            !b@.untagged_enum_variant_titles,
            only_recorded_methods(b@),
            b.methods.ordered(),
            b.content_descriptors.ordered(),
    {
        let b = RpcModuleDocBuilder {
            schema_generator: schema_generator_with_definitions_path(
                SCHEMA_DEFINITIONS_PATH.to_owned(),
            ),
            methods: NameMap::new(),
            content_descriptors: NameMap::new(),
        };
        assert(b@.methods =~= Map::<Seq<char>, MethodModel>::empty());
        assert(b@.content_descriptors =~= Map::<Seq<char>, ContentDescriptorModel>::empty());
        b
    }
}

/// The tags of `tag`: a tag named `tag`, if given.
fn tags_of(tag: Option<String>) -> (r: Vec<Tag>)
    ensures
        seq_view(r@) == method_tags(opt_view(tag)),
{
    let mut tags: Vec<Tag> = Vec::new();
    match tag {
        Some(t) => {
            tags.push(Tag::new(t.as_str()));
        },
        None => {},
    }
    assert(seq_view(tags@) =~= method_tags(opt_view(tag)));
    tags
}

/// The full name of a method.
fn full_method_name(namespace: Option<&str>, name: &str) -> (r: String)
    ensures
        r@ == method_name(opt_view(namespace), name@),
{
    match namespace {
        Some(ns) => {
            let mut full = ns.to_owned();
            let separator = "_";
            proof {
                reveal_strlit("_");
            }
            full.append(separator);
            full.append(name);
            assert(full@ =~= ns@ + seq!['_'] + name@);
            full
        },
        None => name.to_owned(),
    }
}

impl RpcModuleDocBuilder {
    /// Records the method `name` of `namespace` (named `namespace_name`, or `name` without a
    /// namespace), with its parameters, result, doc text, optional tag and deprecation. A
    /// method recorded before under the same full name is replaced.
    pub fn add_method(
        &mut self,
        namespace: Option<&str>,
        name: &str,
        params: Vec<ContentDescriptor>,
        result: Option<ContentDescriptor>,
        doc: &str,
        tag: Option<String>,
        deprecated: bool,
    )
        ensures
            final(self)@.methods == old(self)@.methods.insert(
                method_name(opt_view(namespace), name@),
                documented_method(
                    method_name(opt_view(namespace), name@),
                    seq_view(params@),
                    opt_view(result),
                    doc@,
                    method_tags(opt_view(tag)),
                    deprecated,
                ),
            ),
            final(self)@.content_descriptors == old(self)@.content_descriptors,
            final(self).schema_generator == old(self).schema_generator,
            keyed_by_name(old(self)@.methods) ==> keyed_by_name(final(self)@.methods),
            only_recorded_methods(old(self)@) ==> only_recorded_methods(final(self)@),
    {
        let tags = tags_of(tag);
        self.add_method_internal(namespace, name, params, result, doc, tags, deprecated);
    }

    /// Records the subscription `name` of `namespace` as `add_method` records a method, with
    /// the tags "Websocket" and "PubSub" after the optional tag.
    pub fn add_subscription(
        &mut self,
        namespace: Option<&str>,
        name: &str,
        params: Vec<ContentDescriptor>,
        result: Option<ContentDescriptor>,
        doc: &str,
        tag: Option<String>,
        deprecated: bool,
    )
        ensures
            final(self)@.methods == old(self)@.methods.insert(
                method_name(opt_view(namespace), name@),
                documented_method(
                    method_name(opt_view(namespace), name@),
                    seq_view(params@),
                    opt_view(result),
                    doc@,
                    subscription_tags(opt_view(tag)),
                    deprecated,
                ),
            ),
            final(self)@.content_descriptors == old(self)@.content_descriptors,
            final(self).schema_generator == old(self).schema_generator,
            keyed_by_name(old(self)@.methods) ==> keyed_by_name(final(self)@.methods),
            only_recorded_methods(old(self)@) ==> only_recorded_methods(final(self)@),
    {
        let mut tags = tags_of(tag);
        let websocket = "Websocket";
        let pubsub = "PubSub";
        proof {
            reveal_strlit("Websocket");
            reveal_strlit("PubSub");
            assert(websocket@ =~= seq!['W', 'e', 'b', 's', 'o', 'c', 'k', 'e', 't']);
            assert(pubsub@ =~= seq!['P', 'u', 'b', 'S', 'u', 'b']);
        }
        tags.push(Tag::new(websocket));
        tags.push(Tag::new(pubsub));
        assert(seq_view(tags@) =~= subscription_tags(opt_view(tag)));
        self.add_method_internal(namespace, name, params, result, doc, tags, deprecated);
    }

    /// Records the method under its full name, with the given tags.
    fn add_method_internal(
        &mut self,
        namespace: Option<&str>,
        name: &str,
        params: Vec<ContentDescriptor>,
        result: Option<ContentDescriptor>,
        doc: &str,
        tags: Vec<Tag>,
        deprecated: bool,
    )
        ensures
            final(self)@.methods == old(self)@.methods.insert(
                method_name(opt_view(namespace), name@),
                documented_method(
                    method_name(opt_view(namespace), name@),
                    seq_view(params@),
                    opt_view(result),
                    doc@,
                    seq_view(tags@),
                    deprecated,
                ),
            ),
            final(self)@.content_descriptors == old(self)@.content_descriptors,
            final(self).schema_generator == old(self).schema_generator,
            keyed_by_name(old(self)@.methods) ==> keyed_by_name(final(self)@.methods),
            only_recorded_methods(old(self)@) ==> only_recorded_methods(final(self)@),
    {
        let trimmed_doc = trimmed(doc);
        let description = if trimmed_doc.as_str().is_empty() {
            None
        } else {
            Some(trimmed_doc)
        };
        let full_name = full_method_name(namespace, name);
        let method = Method {
            name: full_name.clone(),
            description,
            params,
            result,
            tags,
            examples: Vec::new(),
            deprecated,
            external_docs: None,
            param_structure: ParamStructure::Either,
            errors: Vec::new(),
            summary: None,
        };
        let ghost old_methods = self.methods@;
        self.methods.insert(full_name, method);
        proof {
            assert(method@.examples =~= Seq::empty());
            assert(method@.errors =~= Seq::empty());
            assert(map_view(self.methods@) =~= map_view(old_methods).insert(full_name@, method@));
        }
    }

    /// The content descriptor named `name` with its spaces removed, with the given summary,
    /// description, requirement and schema, not deprecated. The schema is what the builder's
    /// schema generator gives for the described type.
    pub fn create_content_descriptor(
        &self,
        name: &str,
        summary: Option<String>,
        description: Option<String>,
        required: bool,
        schema: schemars::Schema,
    ) -> (c: ContentDescriptor)
        ensures
            c@ == described_content(name@, opt_view(summary), opt_view(description), required, schema),
    {
        ContentDescriptor {
            name: remove_spaces(name),
            summary,
            description,
            required,
            schema,
            deprecated: false,
        }
    }

    /// The module documented: the methods in increasing order of name, the content
    /// descriptors, and the schema definitions that the generator collected.
    #[must_use]
    pub fn build(self) -> (m: Module)
        ensures
            m.methods@ == self.methods.values_in_order(),
            m@.methods.len() == self@.methods.len(),
            keyed_by_name(self@.methods) ==> listed_in_name_order(m@.methods, self@.methods),
            recorded_plainly(self@.methods) ==> forall|i: int|
                0 <= i < m@.methods.len() ==> plain_method(#[trigger] m@.methods[i]),
            m@.components.schemas == self@.schema_definitions,
            m@.components.content_descriptors == self@.content_descriptors,
            m@.components.errors.dom() == Set::<Seq<char>>::empty(),
            m.components.schemas.ordered(),
    {
        let ghost held = self.methods;
        let methods = self.methods.into_values();
        proof {
            if keyed_by_name(self@.methods) {
                lemma_listed(held);
            }
            assert(map_view(held@).dom() =~= held@.dom());
            if recorded_plainly(self@.methods) {
                assert(keyed_by_name(self@.methods));
                assert forall|i: int| 0 <= i < methods@.len() implies plain_method(
                    #[trigger] seq_view(methods@)[i],
                ) by {
                    let mv = seq_view(methods@);
                    assert(self@.methods.contains_key(mv[i].name));
                }
            }
        }
        let mut generator = self.schema_generator;
        let definitions = take_schema_definitions(&mut generator);
        let schemas = NameMap::from_entries(definitions);
        let components = Components {
            content_descriptors: self.content_descriptors,
            schemas,
            errors: NameMap::new(),
        };
        assert(components@.errors =~= Map::<Seq<char>, crate::document::ErrorModel>::empty());
        Module { methods, components }
    }
}

} // verus!
