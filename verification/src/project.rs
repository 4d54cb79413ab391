//! The OpenRPC document of a whole API, `Project`, and its builder.

use vstd::prelude::*;

use crate::method_order::{
    method_names, sort_methods_by_name, sorted_by_name, stably_sorted_by_name,
};
use crate::name_map::NameMap;
use crate::rpc_module::Module;
use crate::document::{
    map_view, opt_view, seq_view, ContentDescriptorModel, ExampleModel, ExamplePairing,
    ExamplePairingModel, Components, ComponentsModel, Contact, ContactModel, ExternalDocs,
    ExternalDocsModel, Info, InfoModel, License, LicenseModel, Method, MethodModel,
};


verus! {

/// The version of the OpenRPC specification that the documents follow.
pub const OPENRPC_VERSION: &'static str = "1.3.2";

/// The characters of `OPENRPC_VERSION`.
pub open spec fn openrpc_version() -> Seq<char> {
    seq!['1', '.', '3', '.', '2']
}

/// An OpenRPC document following the OpenRPC specification <https://spec.open-rpc.org>.
/// Only the required fields and a subset of the optional fields are represented.
#[derive(Debug, Clone)]
pub struct Project {
    pub openrpc: String,
    pub info: Info,
    pub methods: Vec<Method>,
    pub components: Components,
    pub external_docs: Option<ExternalDocs>,
}

pub struct ProjectModel {
    pub openrpc: Seq<char>,
    pub info: InfoModel,
    pub methods: Seq<MethodModel>,
    pub components: ComponentsModel,
    pub external_docs: Option<ExternalDocsModel>,
}

impl View for Project {
    type V = ProjectModel;

    open spec fn view(&self) -> ProjectModel {
        ProjectModel {
            openrpc: self.openrpc@,
            info: self.info@,
            methods: seq_view(self.methods@),
            components: self.components@,
            external_docs: opt_view(self.external_docs),
        }
    }
}

/// The document that a builder starts from: the given title and version, and nothing else.
pub open spec fn fresh_project(title: Seq<char>, version: Seq<char>) -> ProjectModel {
    ProjectModel {
        openrpc: openrpc_version(),
        info: InfoModel {
            title,
            description: None,
            terms_of_service: None,
            contact: None,
            license: None,
            version,
        },
        methods: Seq::empty(),
        components: ComponentsModel {
            content_descriptors: Map::empty(),
            schemas: Map::empty(),
            errors: Map::empty(),
        },
        external_docs: None,
    }
}

/// The document `p` with `info` in place of its metadata.
pub open spec fn with_info(p: ProjectModel, info: InfoModel) -> ProjectModel {
    ProjectModel { info, ..p }
}

/// The document `p` described by `description`.
pub open spec fn with_description(p: ProjectModel, description: Seq<char>) -> ProjectModel {
    with_info(p, InfoModel { description: Some(description), ..p.info })
}

/// The document `p` with the terms of service `terms`.
pub open spec fn with_terms_of_service(p: ProjectModel, terms: Seq<char>) -> ProjectModel {
    with_info(p, InfoModel { terms_of_service: Some(terms), ..p.info })
}

/// The document `p` with the contact `contact`.
pub open spec fn with_contact(p: ProjectModel, contact: ContactModel) -> ProjectModel {
    with_info(p, InfoModel { contact: Some(contact), ..p.info })
}

/// The document `p` under the license `license`.
pub open spec fn with_license(p: ProjectModel, license: LicenseModel) -> ProjectModel {
    with_info(p, InfoModel { license: Some(license), ..p.info })
}

/// The document `p` with the external documentation `docs`.
pub open spec fn with_external_docs(p: ProjectModel, docs: ExternalDocsModel) -> ProjectModel {
    ProjectModel { external_docs: Some(docs), ..p }
}

/// The document that `Project::new` makes of its arguments.
pub open spec fn documented_project(
    version: Seq<char>,
    title: Seq<char>,
    description: Seq<char>,
    contact_name: Seq<char>,
    url: Seq<char>,
    email: Seq<char>,
    license: Seq<char>,
    license_url: Seq<char>,
) -> ProjectModel {
    with_license(
        with_contact(
            with_description(fresh_project(title, version), description),
            ContactModel { name: contact_name, url: Some(url), email: Some(email) },
        ),
        LicenseModel { name: license, url: Some(license_url) },
    )
}

/// The document `p` with `methods` in place of its methods.
pub open spec fn with_methods(p: ProjectModel, methods: Seq<MethodModel>) -> ProjectModel {
    ProjectModel { methods, ..p }
}

/// The examples that a provider holds, by method name.
pub open spec fn provided_examples(provider: Map<Seq<char>, Vec<ExamplePairing>>) -> Map<
    Seq<char>,
    Seq<ExamplePairingModel>,
> {
    provider.map_values(|v: Vec<ExamplePairing>| seq_view(v@))
}

/// Method `i` takes the examples provided under its name: its name is provided, and no
/// method before it has that name (the first such method takes them).
pub open spec fn takes_examples(methods: Seq<MethodModel>, provided: Set<Seq<char>>, i: int) -> bool {
    &&& provided.contains(methods[i].name)
    &&& forall|j: int| 0 <= j < i ==> #[trigger] methods[j].name != methods[i].name
}

/// The names of the parameters of a method, in order.
pub open spec fn param_names(m: MethodModel) -> Seq<Seq<char>> {
    m.params.map_values(|p: ContentDescriptorModel| p.name)
}

/// The names of the parameters of an example, in order.
pub open spec fn example_param_names(e: ExamplePairingModel) -> Seq<Seq<char>> {
    e.params.map_values(|x: ExampleModel| x.name)
}

/// Every example that a method takes names the parameters of the method, in order.
pub open spec fn examples_fit(
    methods: Seq<MethodModel>,
    provider: Map<Seq<char>, Seq<ExamplePairingModel>>,
) -> bool {
    forall|i: int|
        0 <= i < methods.len() && #[trigger] takes_examples(methods, provider.dom(), i) ==> forall|
            e: int,
        |
            0 <= e < provider[methods[i].name].len() ==> example_param_names(
                #[trigger] provider[methods[i].name][e],
            ) == param_names(methods[i])
}

/// `methods` with the examples provided: a method that takes examples has those of its name
/// in place of its own; the others are unchanged.
pub open spec fn with_examples(
    methods: Seq<MethodModel>,
    provider: Map<Seq<char>, Seq<ExamplePairingModel>>,
) -> Seq<MethodModel> {
    Seq::new(
        methods.len(),
        |i: int|
            if takes_examples(methods, provider.dom(), i) {
                MethodModel { examples: provider[methods[i].name], ..methods[i] }
            } else {
                methods[i]
            },
    )
}

/// Adding examples changes nothing of the methods but their examples.
pub proof fn law_examples_change_only_examples(
    methods: Seq<MethodModel>,
    provider: Map<Seq<char>, Seq<ExamplePairingModel>>,
)
    ensures
        with_examples(methods, provider).len() == methods.len(),
        forall|i: int|
            0 <= i < methods.len() ==> (MethodModel {
                examples: methods[i].examples,
                ..#[trigger] with_examples(methods, provider)[i]
            }) == methods[i],
{
}

/// Adding examples keeps the names of the methods, so it keeps them in their order.
pub proof fn law_examples_keep_names(
    methods: Seq<MethodModel>,
    provider: Map<Seq<char>, Seq<ExamplePairingModel>>,
)
    ensures
        method_names(with_examples(methods, provider)) == method_names(methods),
        sorted_by_name(methods) ==> sorted_by_name(with_examples(methods, provider)),
{
    assert(method_names(with_examples(methods, provider)) =~= method_names(methods));
}

/// Adding the same examples a second time changes nothing more: the methods are those of
/// the first time, the examples still fit, and the same methods are left without examples.
pub proof fn law_examples_twice(
    methods: Seq<MethodModel>,
    provider: Map<Seq<char>, Seq<ExamplePairingModel>>,
)
    ensures
        with_examples(with_examples(methods, provider), provider) == with_examples(methods, provider),
        examples_fit(methods, provider) ==> examples_fit(with_examples(methods, provider), provider),
        names_without_examples(with_examples(methods, provider), provider.dom(), methods.len() as int)
            == names_without_examples(methods, provider.dom(), methods.len() as int),
{
    let w = with_examples(methods, provider);
    assert forall|i: int| 0 <= i < methods.len() implies #[trigger] takes_examples(w, provider.dom(), i)
        == takes_examples(methods, provider.dom(), i) by {
        lemma_same_names_same_takers(w, methods, provider.dom(), i);
    }
    assert(with_examples(w, provider) =~= w);
    if examples_fit(methods, provider) {
        assert forall|i: int|
            0 <= i < w.len() && #[trigger] takes_examples(w, provider.dom(), i) implies forall|
                e: int,
            |
                0 <= e < provider[w[i].name].len() ==> example_param_names(
                    #[trigger] provider[w[i].name][e],
                ) == param_names(w[i]) by {
            assert(takes_examples(methods, provider.dom(), i));
            assert(param_names(w[i]) == param_names(methods[i]));
        }
    }
    lemma_same_names_same_missing(w, methods, provider.dom(), methods.len() as int);
}

/// Methods with the same names in the same places take examples at the same places.
proof fn lemma_same_names_same_takers(
    a: Seq<MethodModel>,
    b: Seq<MethodModel>,
    provided: Set<Seq<char>>,
    i: int,
)
    requires
        a.len() == b.len(),
        0 <= i < a.len(),
        forall|k: int| 0 <= k < a.len() ==> #[trigger] a[k].name == b[k].name,
    ensures
        takes_examples(a, provided, i) == takes_examples(b, provided, i),
{
    assert(a[i].name == b[i].name);
    if takes_examples(a, provided, i) {
        assert forall|j: int| 0 <= j < i implies #[trigger] b[j].name != b[i].name by {
            assert(a[j].name == b[j].name);
            assert(a[j].name != a[i].name);
        }
    }
    if takes_examples(b, provided, i) {
        assert forall|j: int| 0 <= j < i implies #[trigger] a[j].name != a[i].name by {
            assert(a[j].name == b[j].name);
            assert(b[j].name != b[i].name);
        }
    }
}

/// Methods with the same names in the same places leave the same names without examples.
proof fn lemma_same_names_same_missing(
    a: Seq<MethodModel>,
    b: Seq<MethodModel>,
    provided: Set<Seq<char>>,
    n: int,
)
    requires
        a.len() == b.len(),
        n <= a.len(),
        forall|i: int| 0 <= i < a.len() ==> #[trigger] a[i].name == b[i].name,
    ensures
        names_without_examples(a, provided, n) == names_without_examples(b, provided, n),
    decreases n,
{
    if n > 0 {
        lemma_same_names_same_missing(a, b, provided, n - 1);
        lemma_same_names_same_takers(a, b, provided, n - 1);
    }
}

/// Example `e` of those provided for method `i` is the first that does not fit: method `i`
/// takes examples, its example `e` does not name its parameters, and every example taken by
/// an earlier method, or earlier by method `i`, fits.
pub open spec fn misfit_at(
    methods: Seq<MethodModel>,
    provider: Map<Seq<char>, Seq<ExamplePairingModel>>,
    i: int,
    e: int,
) -> bool {
    &&& 0 <= i < methods.len()
    &&& takes_examples(methods, provider.dom(), i)
    &&& 0 <= e < provider[methods[i].name].len()
    &&& example_param_names(provider[methods[i].name][e]) != param_names(methods[i])
    &&& forall|l: int|
        0 <= l < i && #[trigger] takes_examples(methods, provider.dom(), l) ==> forall|f: int|
            0 <= f < provider[methods[l].name].len() ==> example_param_names(
                #[trigger] provider[methods[l].name][f],
            ) == param_names(methods[l])
    &&& forall|f: int|
        0 <= f < e ==> example_param_names(#[trigger] provider[methods[i].name][f])
            == param_names(methods[i])
}

/// What holds of every document made by `Project::new` or a builder and changed only by
/// `add_module` and `add_examples`: it follows OpenRPC 1.3.2 and its methods are sorted by
/// name.
pub open spec fn well_kept(p: ProjectModel) -> bool {
    &&& p.openrpc == openrpc_version()
    &&& sorted_by_name(p.methods)
}

/// The names of the first `n` methods that take no examples, in order.
pub open spec fn names_without_examples(
    methods: Seq<MethodModel>,
    provided: Set<Seq<char>>,
    n: int,
) -> Seq<Seq<char>>
    decreases n,
{
    if n <= 0 {
        Seq::empty()
    } else if takes_examples(methods, provided, n - 1) {
        names_without_examples(methods, provided, n - 1)
    } else {
        names_without_examples(methods, provided, n - 1).push(methods[n - 1].name)
    }
}

/// Whether example `e` names the parameters of method `m`, in order.
fn example_fits(m: &Method, e: &ExamplePairing) -> (r: bool)
    ensures
        r == (example_param_names(e@) == param_names(m@)),
{
    let n = m.params.len();
    if e.params.len() != n {
        assert(example_param_names(e@).len() != param_names(m@).len());
        return false;
    }
    let mut k: usize = 0;
    while k < n
        invariant
            n == m.params@.len(),
            n == e.params@.len(),
            k <= n,
            forall|j: int| 0 <= j < k ==> #[trigger] example_param_names(e@)[j] == param_names(m@)[j],
        decreases n - k,
    {
        if e.params[k].name != m.params[k].name {
            assert(example_param_names(e@)[k as int] != param_names(m@)[k as int]);
            return false;
        }
        k = k + 1;
    }
    assert(example_param_names(e@) =~= param_names(m@));
    true
}

/// Whether no method before method `i` has its name.
fn first_of_its_name(methods: &Vec<Method>, i: usize) -> (r: bool)
    requires
        i < methods@.len(),
    ensures
        r == forall|j: int| 0 <= j < i ==> #[trigger] seq_view(methods@)[j].name != seq_view(methods@)[i as int].name,
{
    let mut j: usize = 0;
    while j < i
        invariant
            i < methods@.len(),
            j <= i,
            forall|l: int| 0 <= l < j ==> #[trigger] seq_view(methods@)[l].name != seq_view(methods@)[i as int].name,
        decreases i - j,
    {
        if methods[j].name == methods[i].name {
            assert(seq_view(methods@)[j as int].name == seq_view(methods@)[i as int].name);
            return false;
        }
        j = j + 1;
    }
    true
}

/// Builds a `Project` field by field.
#[derive(Debug, Clone)]
pub struct ProjectBuilder {
    pub inner: Project,
}

impl View for ProjectBuilder {
    type V = ProjectModel;

    open spec fn view(&self) -> ProjectModel {
        self.inner@
    }
}

fn openrpc_version_string() -> (s: String)
    ensures
        s@ == openrpc_version(),
{
    let s = OPENRPC_VERSION.to_owned();
    proof {
        reveal_strlit("1.3.2");
        assert(s@ =~= openrpc_version());
    }
    s
}

impl ProjectBuilder {
    /// A builder of the document titled `title`, of version `version`, with nothing else set.
    pub fn new(title: String, version: String) -> (b: Self)
        ensures
            b@ == fresh_project(title@, version@),
            well_kept(b@),
    {
        let inner = Project {
            openrpc: openrpc_version_string(),
            info: Info {
                title,
                description: None,
                terms_of_service: None,
                contact: None,
                license: None,
                version,
            },
            methods: Vec::new(),
            components: Components::default(),
            external_docs: None,
        };
        assert(inner@.methods =~= Seq::<MethodModel>::empty());
        assert(inner@.components.content_descriptors =~= Map::<Seq<char>, ContentDescriptorModel>::empty());
        assert(inner@.components.schemas =~= Map::<Seq<char>, serde_json::Value>::empty());
        assert(inner@.components.errors =~= Map::<Seq<char>, crate::document::ErrorModel>::empty());
        ProjectBuilder { inner }
    }

    /// Sets the description of the API.
    pub fn description(&mut self, description: String) -> (r: &mut Self)
        ensures
            (*r)@ == with_description(old(self)@, description@),
            *final(self) == *final(r),
    {
        self.inner.info.description = Some(description);
        self
    }

    /// Sets the terms of service of the API.
    pub fn terms_of_service(&mut self, terms_of_service: String) -> (r: &mut Self)
        ensures
            (*r)@ == with_terms_of_service(old(self)@, terms_of_service@),
            *final(self) == *final(r),
    {
        self.inner.info.terms_of_service = Some(terms_of_service);
        self
    }

    /// Sets the contact information of the API.
    pub fn contact(&mut self, contact: Contact) -> (r: &mut Self)
        ensures
            (*r)@ == with_contact(old(self)@, contact@),
            *final(self) == *final(r),
    {
        self.inner.info.contact = Some(contact);
        self
    }

    /// Sets the license of the API, named `license`, with no URL.
    pub fn license(&mut self, license: String) -> (r: &mut Self)
        ensures
            (*r)@ == with_license(old(self)@, (LicenseModel { name: license@, url: None })),
            *final(self) == *final(r),
    {
        self.inner.info.license = Some(License { name: license, url: None });
        self
    }

    /// Sets the license of the API, named `license`, found at `license_url`.
    pub fn license_with_url(&mut self, license: String, license_url: String) -> (r: &mut Self)
        ensures
            (*r)@ == with_license(
                old(self)@,
                (LicenseModel { name: license@, url: Some(license_url@) }),
            ),
            *final(self) == *final(r),
    {
        self.inner.info.license = Some(License { name: license, url: Some(license_url) });
        self
    }

    /// Sets the external documentation of the API: found at `url`, with no description.
    pub fn external_docs(&mut self, url: String) -> (r: &mut Self)
        ensures
            (*r)@ == with_external_docs(
                old(self)@,
                (ExternalDocsModel { description: None, url: url@ }),
            ),
            *final(self) == *final(r),
    {
        self.inner.external_docs = Some(ExternalDocs { description: None, url });
        self
    }

    /// Sets the external documentation of the API: found at `url`, described by `description`.
    pub fn external_docs_with_description(&mut self, url: String, description: String) -> (r:
        &mut Self)
        ensures
            (*r)@ == with_external_docs(
                old(self)@,
                (ExternalDocsModel { description: Some(description@), url: url@ }),
            ),
            *final(self) == *final(r),
    {
        self.inner.external_docs = Some(ExternalDocs { description: Some(description), url });
        self
    }

    /// The document built.
    pub fn build(self) -> (p: Project)
        ensures
            p == self.inner,
            p@ == self@,
    {
        self.inner
    }
}

impl Project {
    /// A builder of the document titled `title`, of version `version`, with nothing else set.
    pub fn builder(title: String, version: String) -> (b: ProjectBuilder)
        ensures
            b@ == fresh_project(title@, version@),
    {
        ProjectBuilder::new(title, version)
    }

    /// The document of version `version` titled `title`, described by `description`, with the
    /// contact `contact_name` (at `url` and `email`) and the license `license` (at
    /// `license_url`), and no method, component or external documentation.
    #[must_use]
    pub fn new(
        version: &str,
        title: &str,
        description: &str,
        contact_name: &str,
        url: &str,
        email: &str,
        license: &str,
        license_url: &str,
    ) -> (p: Self)
        ensures
            p@ == documented_project(
                version@,
                title@,
                description@,
                contact_name@,
                url@,
                email@,
                license@,
                license_url@,
            ),
            well_kept(p@),
    {
        let p = Project {
            openrpc: openrpc_version_string(),
            info: Info {
                title: title.to_owned(),
                description: Some(description.to_owned()),
                terms_of_service: None,
                contact: Some(
                    Contact {
                        name: contact_name.to_owned(),
                        url: Some(url.to_owned()),
                        email: Some(email.to_owned()),
                    },
                ),
                license: Some(
                    License { name: license.to_owned(), url: Some(license_url.to_owned()) },
                ),
                version: version.to_owned(),
            },
            methods: Vec::new(),
            components: Components::default(),
            external_docs: None,
        };
        assert(p@.methods =~= Seq::<MethodModel>::empty());
        assert(p@.components.content_descriptors =~= Map::<Seq<char>, ContentDescriptorModel>::empty());
        assert(p@.components.schemas =~= Map::<Seq<char>, serde_json::Value>::empty());
        assert(p@.components.errors =~= Map::<Seq<char>, crate::document::ErrorModel>::empty());
        p
    }

    /// Adds the methods and components of `module`: the methods of both, sorted by name
    /// (methods of the same name keep their order, the document's first), and the schemas and
    /// content descriptors of both, those of `module` winning where a name is taken.
    pub fn add_module(&mut self, module: Module)
        ensures
            stably_sorted_by_name(final(self)@.methods, old(self)@.methods + module@.methods),
            final(self)@.components.schemas == old(self)@.components.schemas.union_prefer_right(
                module@.components.schemas,
            ),
            final(self)@.components.content_descriptors
                == old(self)@.components.content_descriptors.union_prefer_right(
                module@.components.content_descriptors,
            ),
            final(self)@.components.errors == old(self)@.components.errors,
            final(self)@.openrpc == old(self)@.openrpc,
            final(self)@.info == old(self)@.info,
            final(self)@.external_docs == old(self)@.external_docs,
            well_kept(old(self)@) ==> well_kept(final(self)@),
    {
        let Module { methods, components } = module;
        let mut incoming = methods;
        let mut all: Vec<Method> = Vec::new();
        std::mem::swap(&mut all, &mut self.methods);
        let ghost before = all@;
        all.append(&mut incoming);
        assert(seq_view(all@) =~= seq_view(before) + module@.methods);
        self.methods = sort_methods_by_name(all);
        let ghost old_cds = self.components.content_descriptors@;
        self.components.schemas.extend(components.schemas);
        self.components.content_descriptors.extend(components.content_descriptors);
        assert(map_view(self.components.content_descriptors@) =~= map_view(old_cds).union_prefer_right(
            module@.components.content_descriptors,
        ));
    }
    /// Gives each method the examples provided under its name. Where several methods share a
    /// name, the first takes them. The names of the methods that take none are handed back,
    /// in order. The examples that a method takes must name its parameters, in order.
    pub fn add_examples(&mut self, example_provider: NameMap<Vec<ExamplePairing>>) -> (missing:
        Vec<String>)
        requires
            examples_fit(old(self)@.methods, provided_examples(example_provider@)),
        ensures
            final(self)@ == with_methods(
                old(self)@,
                with_examples(old(self)@.methods, provided_examples(example_provider@)),
            ),
            seq_view(missing@) == names_without_examples(
                old(self)@.methods,
                example_provider@.dom(),
                old(self)@.methods.len() as int,
            ),
            well_kept(old(self)@) ==> well_kept(final(self)@),
    {
        let ghost prov0 = example_provider@;
        let ghost pm = provided_examples(prov0);
        let ghost ms = old(self)@.methods;
        let mut provider = example_provider;
        let mut rest: Vec<Method> = Vec::new();
        std::mem::swap(&mut rest, &mut self.methods);
        let ghost orig = rest@;
        let mut done: Vec<Method> = Vec::new();
        let mut missing: Vec<String> = Vec::new();
        let ghost mut i: int = 0;
        assert(orig.skip(0) =~= orig);
        assert(pm.dom() =~= prov0.dom());
        while rest.len() > 0
            invariant
                0 <= i <= orig.len(),
                ms == seq_view(orig),
                rest@ == orig.skip(i),
                pm == provided_examples(prov0),
                pm.dom() == prov0.dom(),
                forall|k: Seq<char>| #[trigger]
                    provider@.contains_key(k) <==> (prov0.contains_key(k) && forall|j: int|
                        0 <= j < i ==> #[trigger] ms[j].name != k),
                forall|k: Seq<char>| #[trigger] provider@.contains_key(k) ==> provider@[k] == prov0[k],
                seq_view(done@) == with_examples(ms, pm).take(i),
                seq_view(missing@) == names_without_examples(ms, prov0.dom(), i),
                self.openrpc == old(self).openrpc,
                self.info == old(self).info,
                self.components == old(self).components,
                self.external_docs == old(self).external_docs,
            decreases rest.len(),
        {
            let ghost done_before = seq_view(done@);
            let mut m = rest.remove(0);
            proof {
                assert(m == orig[i]);
                assert(i < ms.len());
                assert(rest@ =~= orig.skip(i + 1));
            }
            let ghost taken = takes_examples(ms, prov0.dom(), i);
            let ghost name = ms[i].name;
            proof {
                assert(m@.name == name);
                if provider@.contains_key(name) {
                    assert(taken);
                } else if taken {
                    assert(forall|j: int| 0 <= j < i ==> #[trigger] ms[j].name != name);
                    assert(false);
                }
            }
            let ghost expected = with_examples(ms, pm)[i];
            match provider.remove(m.name.as_str()) {
                Some(examples) => {
                    assert(examples == prov0[name]);
                    assert(pm[name] == seq_view(prov0[name]@));
                    m.examples = examples;
                    assert(m@ == expected);
                },
                None => {
                    assert(!taken);
                    missing.push(m.name.clone());
                    assert(m@ == expected);
                },
            }
            let ghost mv = m@;
            done.push(m);
            proof {
                assert(mv == expected);
                assert(seq_view(done@) =~= done_before.push(mv));
                assert(with_examples(ms, pm).take(i + 1) =~= with_examples(ms, pm).take(i).push(expected));
                assert(seq_view(done@) =~= with_examples(ms, pm).take(i + 1));
                i = i + 1;
            }
        }
        assert(with_examples(ms, pm).take(i) =~= with_examples(ms, pm));
        proof {
            law_examples_keep_names(ms, pm);
        }
        self.methods = done;
        missing
    }
    /// The first example of `example_provider` that does not fit the method that would take
    /// it, as (method index, example index), or `None` where all fit, as `add_examples`
    /// requires. Methods are looked at in order, and the examples of each in order.
    pub fn first_misfit_example(&self, example_provider: &NameMap<Vec<ExamplePairing>>) -> (r:
        Option<(usize, usize)>)
        ensures
            r is None <==> examples_fit(self@.methods, provided_examples(example_provider@)),
            (match r {
                Some((i, e)) => misfit_at(
                    self@.methods,
                    provided_examples(example_provider@),
                    i as int,
                    e as int,
                ),
                None => true,
            }),
    {
        let ghost ms = self@.methods;
        let ghost pm = provided_examples(example_provider@);
        assert(pm.dom() =~= example_provider@.dom());
        let n = self.methods.len();
        let mut i: usize = 0;
        while i < n
            invariant
                n == ms.len(),
                ms == self@.methods,
                pm == provided_examples(example_provider@),
                pm.dom() == example_provider@.dom(),
                i <= n,
                forall|l: int|
                    0 <= l < i && #[trigger] takes_examples(ms, pm.dom(), l) ==> forall|e: int|
                        0 <= e < pm[ms[l].name].len() ==> example_param_names(
                            #[trigger] pm[ms[l].name][e],
                        ) == param_names(ms[l]),
            decreases n - i,
        {
            let m = &self.methods[i];
            assert(m@ == ms[i as int]);
            match example_provider.get(m.name.as_str()) {
                Some(examples) => {
                    if first_of_its_name(&self.methods, i) {
                        assert(takes_examples(ms, pm.dom(), i as int));
                        assert(pm[ms[i as int].name] == seq_view(examples@));
                        let count = examples.len();
                        let mut e: usize = 0;
                        while e < count
                            invariant
                                n == ms.len(),
                                ms == self@.methods,
                                forall|l: int|
                                    0 <= l < i && #[trigger] takes_examples(ms, pm.dom(), l) ==> forall|f: int|
                                        0 <= f < pm[ms[l].name].len() ==> example_param_names(
                                            #[trigger] pm[ms[l].name][f],
                                        ) == param_names(ms[l]),
                                i < n,
                                pm == provided_examples(example_provider@),
                                takes_examples(ms, pm.dom(), i as int),
                                count == examples@.len(),
                                e <= count,
                                m@ == ms[i as int],
                                pm[ms[i as int].name] == seq_view(examples@),
                                forall|f: int| 0 <= f < e ==> example_param_names(
                                    #[trigger] pm[ms[i as int].name][f],
                                ) == param_names(ms[i as int]),
                            decreases count - e,
                        {
                            if !example_fits(m, &examples[e]) {
                                proof {
                                    let bad = pm[ms[i as int].name][e as int];
                                    assert(example_param_names(bad) != param_names(ms[i as int]));
                                    assert(0 <= e < pm[ms[i as int].name].len());
                                    assert(!examples_fit(ms, pm));
                                }
                                return Some((i, e));
                            }
                            e = e + 1;
                        }
                    } else {
                        assert(!takes_examples(ms, pm.dom(), i as int));
                    }
                },
                None => {
                    assert(!takes_examples(ms, pm.dom(), i as int));
                },
            }
            i = i + 1;
        }
        None
    }
}

} // verus!
