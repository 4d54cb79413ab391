//! The parts of an OpenRPC document, each with the mathematical value that contracts speak of.

use vstd::prelude::*;

use vstd::std_specs::cmp::{PartialEqSpec, PartialEqSpecImpl};

use crate::name_map::NameMap;

verus! {

/// The view of an optional value.
pub open spec fn opt_view<T: View>(o: Option<T>) -> Option<T::V> {
    match o {
        Some(t) => Some(t@),
        None => None,
    }
}

/// The views of a sequence of values.
pub open spec fn seq_view<T: View>(s: Seq<T>) -> Seq<T::V> {
    s.map_values(|t: T| t@)
}

/// The views of the values of a map.
pub open spec fn map_view<T: View>(m: Map<Seq<char>, T>) -> Map<Seq<char>, T::V> {
    m.map_values(|t: T| t@)
}

/// Whether `value` equals the default value of its type, as `PartialEq` compares them.
pub fn default<T: Default + PartialEq>(value: &T) -> (r: bool)
    ensures
        exists|d: T|
            #[trigger] call_ensures(T::default, (), d) && (T::obeys_eq_spec() ==> r
                == value.eq_spec(&d)),
{
    let d = T::default();
    let r = value.eq(&d);
    assert(call_ensures(T::default, (), d));
    r
}

/// Contact information for the exposed API.
#[derive(Debug, Clone, Default)]
pub struct Contact {
    pub name: String,
    pub url: Option<String>,
    pub email: Option<String>,
}

pub struct ContactModel {
    pub name: Seq<char>,
    pub url: Option<Seq<char>>,
    pub email: Option<Seq<char>>,
}

impl View for Contact {
    type V = ContactModel;

    open spec fn view(&self) -> ContactModel {
        ContactModel { name: self.name@, url: opt_view(self.url), email: opt_view(self.email) }
    }
}

/// The license of the exposed API.
#[derive(Debug, Clone, Default)]
pub struct License {
    pub name: String,
    pub url: Option<String>,
}

pub struct LicenseModel {
    pub name: Seq<char>,
    pub url: Option<Seq<char>>,
}

impl View for License {
    type V = LicenseModel;

    open spec fn view(&self) -> LicenseModel {
        LicenseModel { name: self.name@, url: opt_view(self.url) }
    }
}

/// A reference to external documentation.
#[derive(Debug, Clone, Default)]
pub struct ExternalDocs {
    pub description: Option<String>,
    pub url: String,
}

pub struct ExternalDocsModel {
    pub description: Option<Seq<char>>,
    pub url: Seq<char>,
}

impl View for ExternalDocs {
    type V = ExternalDocsModel;

    open spec fn view(&self) -> ExternalDocsModel {
        ExternalDocsModel { description: opt_view(self.description), url: self.url@ }
    }
}

/// Metadata about the API.
#[derive(Debug, Clone, Default)]
pub struct Info {
    pub title: String,
    pub description: Option<String>,
    pub terms_of_service: Option<String>,
    pub contact: Option<Contact>,
    pub license: Option<License>,
    pub version: String,
}

pub struct InfoModel {
    pub title: Seq<char>,
    pub description: Option<Seq<char>>,
    pub terms_of_service: Option<Seq<char>>,
    pub contact: Option<ContactModel>,
    pub license: Option<LicenseModel>,
    pub version: Seq<char>,
}

impl View for Info {
    type V = InfoModel;

    open spec fn view(&self) -> InfoModel {
        InfoModel {
            title: self.title@,
            description: opt_view(self.description),
            terms_of_service: opt_view(self.terms_of_service),
            contact: opt_view(self.contact),
            license: opt_view(self.license),
            version: self.version@,
        }
    }
}

/// A tag that groups methods.
#[derive(Debug, Clone, Default)]
pub struct Tag {
    pub name: String,
    pub summary: Option<String>,
    pub description: Option<String>,
    pub external_docs: Option<ExternalDocs>,
}

pub struct TagModel {
    pub name: Seq<char>,
    pub summary: Option<Seq<char>>,
    pub description: Option<Seq<char>>,
    pub external_docs: Option<ExternalDocsModel>,
}

impl View for Tag {
    type V = TagModel;

    open spec fn view(&self) -> TagModel {
        TagModel {
            name: self.name@,
            summary: opt_view(self.summary),
            description: opt_view(self.description),
            external_docs: opt_view(self.external_docs),
        }
    }
}

/// The tag named `name`, with nothing else set.
pub open spec fn tag_named(name: Seq<char>) -> TagModel {
    TagModel { name, summary: None, description: None, external_docs: None }
}

impl Tag {
    /// A tag named `name`, with no summary, description or external documentation.
    pub fn new(name: &str) -> (t: Self)
        ensures
            t@ == tag_named(name@),
    {
        Tag { name: name.to_owned(), summary: None, description: None, external_docs: None }
    }
}

/// A parameter or a result of a method: its name, documentation and schema.
#[derive(Debug, Clone, Default)]
pub struct ContentDescriptor {
    pub name: String,
    pub summary: Option<String>,
    pub description: Option<String>,
    pub required: bool,
    pub schema: schemars::Schema,
    pub deprecated: bool,
}

pub struct ContentDescriptorModel {
    pub name: Seq<char>,
    pub summary: Option<Seq<char>>,
    pub description: Option<Seq<char>>,
    pub required: bool,
    pub schema: schemars::Schema,
    pub deprecated: bool,
}

impl View for ContentDescriptor {
    type V = ContentDescriptorModel;

    open spec fn view(&self) -> ContentDescriptorModel {
        ContentDescriptorModel {
            name: self.name@,
            summary: opt_view(self.summary),
            description: opt_view(self.description),
            required: self.required,
            schema: self.schema,
            deprecated: self.deprecated,
        }
    }
}

/// How the parameters of a method are passed: by name, by position, or either way.
#[derive(Debug, Clone, Copy, Eq)]
pub enum ParamStructure {
    ByName,
    ByPosition,
    Either,
}

impl PartialEq for ParamStructure {
    fn eq(&self, other: &Self) -> (r: bool) {
        match (self, other) {
            (ParamStructure::ByName, ParamStructure::ByName) => true,
            (ParamStructure::ByPosition, ParamStructure::ByPosition) => true,
            (ParamStructure::Either, ParamStructure::Either) => true,
            _ => false,
        }
    }
}

impl PartialEqSpecImpl for ParamStructure {
    open spec fn obeys_eq_spec() -> bool {
        true
    }

    open spec fn eq_spec(&self, other: &Self) -> bool {
        *self == *other
    }
}

impl Default for ParamStructure {
    fn default() -> (r: Self)
        ensures
            r == ParamStructure::Either,
    {
        ParamStructure::Either
    }
}

/// An example value of a parameter or a result.
#[derive(Debug, Clone, Default)]
pub struct Example {
    pub name: String,
    pub summary: Option<String>,
    pub description: Option<String>,
    pub value: serde_json::Value,
}

pub struct ExampleModel {
    pub name: Seq<char>,
    pub summary: Option<Seq<char>>,
    pub description: Option<Seq<char>>,
    pub value: serde_json::Value,
}

impl View for Example {
    type V = ExampleModel;

    open spec fn view(&self) -> ExampleModel {
        ExampleModel {
            name: self.name@,
            summary: opt_view(self.summary),
            description: opt_view(self.description),
            value: self.value,
        }
    }
}

/// An example of a call: the values of its parameters and of its result.
#[derive(Debug, Clone, Default)]
pub struct ExamplePairing {
    pub name: String,
    pub description: Option<String>,
    pub summary: Option<String>,
    pub params: Vec<Example>,
    pub result: Example,
}

pub struct ExamplePairingModel {
    pub name: Seq<char>,
    pub description: Option<Seq<char>>,
    pub summary: Option<Seq<char>>,
    pub params: Seq<ExampleModel>,
    pub result: ExampleModel,
}

impl View for ExamplePairing {
    type V = ExamplePairingModel;

    open spec fn view(&self) -> ExamplePairingModel {
        ExamplePairingModel {
            name: self.name@,
            description: opt_view(self.description),
            summary: opt_view(self.summary),
            params: seq_view(self.params@),
            result: self.result@,
        }
    }
}

/// The example of the value `value` under the name `name`, with nothing else set.
pub open spec fn plain_example(name: Seq<char>, value: serde_json::Value) -> ExampleModel {
    ExampleModel { name, summary: None, description: None, value }
}

/// The name that an example pairing gives its result.
pub open spec fn result_example_name() -> Seq<char> {
    seq!['R', 'e', 's', 'u', 'l', 't']
}

impl ExamplePairing {
    /// The pairing named `name` whose parameters are the named values of `params`, in order,
    /// and whose result, named "Result", is `result`.
    #[must_use]
    pub fn new(name: &str, params: Vec<(&str, serde_json::Value)>, result: serde_json::Value) -> (p:
        Self)
        ensures
            p@.name == name@,
            p@.description is None,
            p@.summary is None,
            p@.params.len() == params@.len(),
            forall|i: int|
                0 <= i < params@.len() ==> #[trigger] p@.params[i] == plain_example(
                    params@[i].0@,
                    params@[i].1,
                ),
            p@.result == plain_example(result_example_name(), result),
    {
        let ghost orig = params@;
        let mut rest = params;
        let mut examples: Vec<Example> = Vec::new();
        let ghost mut i: int = 0;
        assert(orig.skip(0) =~= orig);
        while rest.len() > 0
            invariant
                0 <= i <= orig.len(),
                rest@ == orig.skip(i),
                examples@.len() == i,
                forall|j: int|
                    0 <= j < i ==> #[trigger] examples@[j]@ == plain_example(
                        orig[j].0@,
                        orig[j].1,
                    ),
            decreases rest.len(),
        {
            let (param_name, value) = rest.remove(0);
            proof {
                assert((param_name, value) == orig[i]);
                assert(rest@ =~= orig.skip(i + 1));
                i = i + 1;
            }
            examples.push(
                Example { name: param_name.to_owned(), summary: None, description: None, value },
            );
        }
        let result_name = "Result";
        proof {
            reveal_strlit("Result");
            assert(result_name@ =~= result_example_name());
        }
        ExamplePairing {
            name: name.to_owned(),
            description: None,
            summary: None,
            params: examples,
            result: Example { name: result_name.to_owned(), summary: None, description: None, value: result },
        }
    }
}

/// An error that a method may return.
#[derive(Debug, Clone, Default)]
pub struct Error {
    pub code: i64,
    pub message: String,
    pub data: serde_json::Value,
}

pub struct ErrorModel {
    pub code: i64,
    pub message: Seq<char>,
    pub data: serde_json::Value,
}

impl View for Error {
    type V = ErrorModel;

    open spec fn view(&self) -> ErrorModel {
        ErrorModel { code: self.code, message: self.message@, data: self.data }
    }
}

/// A method of the API.
#[derive(Debug, Clone, Default)]
pub struct Method {
    pub name: String,
    pub tags: Vec<Tag>,
    pub summary: Option<String>,
    pub description: Option<String>,
    pub external_docs: Option<ExternalDocs>,
    pub params: Vec<ContentDescriptor>,
    pub result: Option<ContentDescriptor>,
    pub deprecated: bool,
    pub errors: Vec<Error>,
    pub param_structure: ParamStructure,
    pub examples: Vec<ExamplePairing>,
}

pub struct MethodModel {
    pub name: Seq<char>,
    pub tags: Seq<TagModel>,
    pub summary: Option<Seq<char>>,
    pub description: Option<Seq<char>>,
    pub external_docs: Option<ExternalDocsModel>,
    pub params: Seq<ContentDescriptorModel>,
    pub result: Option<ContentDescriptorModel>,
    pub deprecated: bool,
    pub errors: Seq<ErrorModel>,
    pub param_structure: ParamStructure,
    pub examples: Seq<ExamplePairingModel>,
}

impl View for Method {
    type V = MethodModel;

    open spec fn view(&self) -> MethodModel {
        MethodModel {
            name: self.name@,
            tags: seq_view(self.tags@),
            summary: opt_view(self.summary),
            description: opt_view(self.description),
            external_docs: opt_view(self.external_docs),
            params: seq_view(self.params@),
            result: opt_view(self.result),
            deprecated: self.deprecated,
            errors: seq_view(self.errors@),
            param_structure: self.param_structure,
            examples: seq_view(self.examples@),
        }
    }
}

/// The reusable parts of a document, each under its name.
#[derive(Debug, Clone)]
pub struct Components {
    pub content_descriptors: NameMap<ContentDescriptor>,
    pub schemas: NameMap<serde_json::Value>,
    pub errors: NameMap<Error>,
}

pub struct ComponentsModel {
    pub content_descriptors: Map<Seq<char>, ContentDescriptorModel>,
    pub schemas: Map<Seq<char>, serde_json::Value>,
    pub errors: Map<Seq<char>, ErrorModel>,
}

impl View for Components {
    type V = ComponentsModel;

    open spec fn view(&self) -> ComponentsModel {
        ComponentsModel {
            content_descriptors: map_view(self.content_descriptors@),
            schemas: self.schemas@,
            errors: map_view(self.errors@),
        }
    }
}

impl Default for Components {
    /// Components with nothing in them.
    fn default() -> (c: Self)
        ensures
            c@.content_descriptors.dom() == Set::<Seq<char>>::empty(),
            c@.schemas == Map::<Seq<char>, serde_json::Value>::empty(),
            c@.errors.dom() == Set::<Seq<char>>::empty(),
    {
        let c = Components {
            content_descriptors: NameMap::new(),
            schemas: NameMap::new(),
            errors: NameMap::new(),
        };
        assert(c@.content_descriptors =~= Map::<Seq<char>, ContentDescriptorModel>::empty());
        assert(c@.errors =~= Map::<Seq<char>, ErrorModel>::empty());
        c
    }
}

} // verus!
