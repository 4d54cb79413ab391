//! Laws of the document operations: what each spec function that a contract goes through
//! says, field by field, in terms of its inputs.

use vstd::prelude::*;

use crate::document::{
    plain_example, result_example_name, tag_named, ContentDescriptorModel, ExamplePairingModel,
    MethodModel, TagModel,
};
use crate::project::{
    documented_project, example_param_names, examples_fit, takes_examples, fresh_project, names_without_examples,
    openrpc_version, param_names, with_contact, with_description, with_examples,
    with_external_docs, with_license, with_terms_of_service, ProjectModel,
};
use crate::rpc_module::{
    described_content, documented_method, method_description, method_name, method_tags,
    subscription_tags,
};
use crate::document::{ContactModel, ExternalDocsModel, LicenseModel};
use crate::method_order::sorted_by_name;
use crate::text::{
    is_white_space, law_name_order_is_byte_order, lexicographically_before, name_le, trim,
    trim_end, trim_start, without_spaces,
};
use vstd::utf8::encode_utf8;

verus! {

/// A name sorts no later than another exactly when it is the same name or its UTF-8 bytes
/// come first in lexicographic byte order.
pub proof fn law_name_le_is_byte_order(a: Seq<char>, b: Seq<char>)
    ensures
        name_le(a, b) <==> (a == b || lexicographically_before(encode_utf8(a), encode_utf8(b))),
{
    law_name_order_is_byte_order(a, b);
}

/// Methods are sorted by name exactly when, for any two of them, the earlier has the same
/// name or a name whose UTF-8 bytes come first in lexicographic byte order.
pub proof fn law_sorted_by_name_is_byte_order(s: Seq<MethodModel>)
    ensures
        sorted_by_name(s) <==> forall|i: int, j: int|
            0 <= i < j < s.len() ==> #[trigger] s[i].name == #[trigger] s[j].name
                || lexicographically_before(encode_utf8(s[i].name), encode_utf8(s[j].name)),
{
    assert forall|i: int, j: int| 0 <= i < j < s.len() implies (name_le(#[trigger] s[i].name, #[trigger] s[j].name)
        <==> (s[i].name == s[j].name || lexicographically_before(
        encode_utf8(s[i].name),
        encode_utf8(s[j].name),
    ))) by {
        law_name_le_is_byte_order(s[i].name, s[j].name);
    }
}

/// `q` and `p` agree on everything but the metadata.
pub open spec fn same_but_info(q: ProjectModel, p: ProjectModel) -> bool {
    &&& q.openrpc == p.openrpc
    &&& q.methods == p.methods
    &&& q.components == p.components
    &&& q.external_docs == p.external_docs
}

/// Setting the description changes the description and nothing else.
pub proof fn law_description_sets_only_description(p: ProjectModel, d: Seq<char>)
    ensures
        with_description(p, d).info.description == Some(d),
        with_description(p, d).info.title == p.info.title,
        with_description(p, d).info.terms_of_service == p.info.terms_of_service,
        with_description(p, d).info.contact == p.info.contact,
        with_description(p, d).info.license == p.info.license,
        with_description(p, d).info.version == p.info.version,
        same_but_info(with_description(p, d), p),
{
}

/// Setting the terms of service changes them and nothing else.
pub proof fn law_terms_of_service_sets_only_terms(p: ProjectModel, t: Seq<char>)
    ensures
        with_terms_of_service(p, t).info.terms_of_service == Some(t),
        with_terms_of_service(p, t).info.title == p.info.title,
        with_terms_of_service(p, t).info.description == p.info.description,
        with_terms_of_service(p, t).info.contact == p.info.contact,
        with_terms_of_service(p, t).info.license == p.info.license,
        with_terms_of_service(p, t).info.version == p.info.version,
        same_but_info(with_terms_of_service(p, t), p),
{
}

/// Setting the contact changes it and nothing else.
pub proof fn law_contact_sets_only_contact(p: ProjectModel, c: ContactModel)
    ensures
        with_contact(p, c).info.contact == Some(c),
        with_contact(p, c).info.title == p.info.title,
        with_contact(p, c).info.description == p.info.description,
        with_contact(p, c).info.terms_of_service == p.info.terms_of_service,
        with_contact(p, c).info.license == p.info.license,
        with_contact(p, c).info.version == p.info.version,
        same_but_info(with_contact(p, c), p),
{
}

/// Setting the license changes it and nothing else.
pub proof fn law_license_sets_only_license(p: ProjectModel, l: LicenseModel)
    ensures
        with_license(p, l).info.license == Some(l),
        with_license(p, l).info.title == p.info.title,
        with_license(p, l).info.description == p.info.description,
        with_license(p, l).info.terms_of_service == p.info.terms_of_service,
        with_license(p, l).info.contact == p.info.contact,
        with_license(p, l).info.version == p.info.version,
        same_but_info(with_license(p, l), p),
{
}

/// Setting the external documentation changes it and nothing else.
pub proof fn law_external_docs_sets_only_docs(p: ProjectModel, d: ExternalDocsModel)
    ensures
        with_external_docs(p, d).external_docs == Some(d),
        with_external_docs(p, d).info == p.info,
        with_external_docs(p, d).openrpc == p.openrpc,
        with_external_docs(p, d).methods == p.methods,
        with_external_docs(p, d).components == p.components,
{
}

/// A new document follows OpenRPC 1.3.2, has the given title and version, and nothing else.
pub proof fn law_fresh_project(title: Seq<char>, version: Seq<char>)
    ensures
        openrpc_version() == "1.3.2"@,
        fresh_project(title, version).openrpc == "1.3.2"@,
        fresh_project(title, version).info.title == title,
        fresh_project(title, version).info.version == version,
        fresh_project(title, version).info.description is None,
        fresh_project(title, version).info.terms_of_service is None,
        fresh_project(title, version).info.contact is None,
        fresh_project(title, version).info.license is None,
        fresh_project(title, version).methods.len() == 0,
        fresh_project(title, version).components.content_descriptors.dom() == Set::<Seq<char>>::empty(),
        fresh_project(title, version).components.schemas.dom() == Set::<Seq<char>>::empty(),
        fresh_project(title, version).components.errors.dom() == Set::<Seq<char>>::empty(),
        fresh_project(title, version).external_docs is None,
{
    reveal_strlit("1.3.2");
    assert(openrpc_version() =~= "1.3.2"@);
}

/// `Project::new` puts each of its arguments in its place.
pub proof fn law_documented_project(
    version: Seq<char>,
    title: Seq<char>,
    description: Seq<char>,
    contact_name: Seq<char>,
    url: Seq<char>,
    email: Seq<char>,
    license: Seq<char>,
    license_url: Seq<char>,
)
    ensures
        ({
            let p = documented_project(
                version,
                title,
                description,
                contact_name,
                url,
                email,
                license,
                license_url,
            );
            &&& p.openrpc == "1.3.2"@
            &&& p.info.version == version
            &&& p.info.title == title
            &&& p.info.description == Some(description)
            &&& p.info.terms_of_service is None
            &&& p.info.contact is Some
            &&& p.info.contact->0.name == contact_name
            &&& p.info.contact->0.url == Some(url)
            &&& p.info.contact->0.email == Some(email)
            &&& p.info.license is Some
            &&& p.info.license->0.name == license
            &&& p.info.license->0.url == Some(license_url)
            &&& p.methods.len() == 0
            &&& p.external_docs is None
        }),
{
    law_fresh_project(title, version);
}

/// A tag made of a name has that name and nothing else.
pub proof fn law_tag_named(name: Seq<char>)
    ensures
        tag_named(name).name == name,
        tag_named(name).summary is None,
        tag_named(name).description is None,
        tag_named(name).external_docs is None,
{
}

/// An example pairing's result is named "Result"; a plain example has the given name and
/// value and nothing else.
pub proof fn law_examples(name: Seq<char>, value: serde_json::Value)
    ensures
        result_example_name() == "Result"@,
        plain_example(name, value).name == name,
        plain_example(name, value).value == value,
        plain_example(name, value).summary is None,
        plain_example(name, value).description is None,
{
    reveal_strlit("Result");
    assert(result_example_name() =~= "Result"@);
}

/// The characters of `trim(s)` stand together in `s`, with only whitespace before and after
/// them, and neither the first nor the last of them is whitespace.
pub proof fn law_trim_is_inner_part(s: Seq<char>)
    ensures
        exists|i: int, j: int|
            0 <= i <= j <= s.len() && #[trigger] s.subrange(i, j) == trim(s) && (forall|k: int|
                0 <= k < i ==> is_white_space(#[trigger] s[k])) && (forall|k: int|
                j <= k < s.len() ==> is_white_space(#[trigger] s[k])) && (i < j ==> !is_white_space(
                s[i]) && !is_white_space(s[j - 1])),
{
    let i = lemma_trim_start_skip(s);
    let t = s.skip(i);
    let q = lemma_trim_end_take(t);
    let j = i + q;
    assert(s.subrange(i, j) =~= t.take(q));
    assert forall|k: int| j <= k < s.len() implies is_white_space(#[trigger] s[k]) by {
        assert(s[k] == t[k - i]);
    }
    if i < j {
        assert(s[i] == t[0]);
        assert(s[j - 1] == t.take(q)[q - 1]);
    }
    assert(s.subrange(i, j) == trim(s));
}

proof fn lemma_trim_start_skip(s: Seq<char>) -> (i: int)
    ensures
        0 <= i <= s.len(),
        trim_start(s) == s.skip(i),
        forall|k: int| 0 <= k < i ==> is_white_space(#[trigger] s[k]),
        i < s.len() ==> !is_white_space(s[i]),
    decreases s.len(),
{
    if s.len() > 0 && is_white_space(s[0]) {
        let i1 = lemma_trim_start_skip(s.drop_first());
        assert(s.drop_first().skip(i1) =~= s.skip(i1 + 1));
        assert forall|k: int| 0 <= k < i1 + 1 implies is_white_space(#[trigger] s[k]) by {
            if k > 0 {
                assert(s[k] == s.drop_first()[k - 1]);
            }
        }
        i1 + 1
    } else {
        assert(s.skip(0) =~= s);
        0
    }
}

proof fn lemma_trim_end_take(s: Seq<char>) -> (j: int)
    ensures
        0 <= j <= s.len(),
        trim_end(s) == s.take(j),
        forall|k: int| j <= k < s.len() ==> is_white_space(#[trigger] s[k]),
        j > 0 ==> !is_white_space(s[j - 1]),
    decreases s.len(),
{
    if s.len() > 0 && is_white_space(s.last()) {
        let j1 = lemma_trim_end_take(s.drop_last());
        assert(s.drop_last().take(j1) =~= s.take(j1));
        assert forall|k: int| j1 <= k < s.len() implies is_white_space(#[trigger] s[k]) by {
            if k < s.len() - 1 {
                assert(s[k] == s.drop_last()[k]);
            }
        }
        j1
    } else {
        assert(s.take(s.len() as int) =~= s);
        s.len() as int
    }
}

/// A method's description is absent exactly when its doc text is all whitespace; otherwise
/// it is the doc text trimmed.
pub proof fn law_method_description(doc: Seq<char>)
    ensures
        method_description(doc) is None <==> forall|k: int| 0 <= k < doc.len() ==> is_white_space(#[trigger] doc[k]),
        method_description(doc) is Some ==> method_description(doc)->0 == trim(doc),
{
    law_trim_is_inner_part(doc);
    let (i, j) = choose|i: int, j: int|
        0 <= i <= j <= doc.len() && #[trigger] doc.subrange(i, j) == trim(doc) && (forall|k: int|
            0 <= k < i ==> is_white_space(#[trigger] doc[k])) && (forall|k: int|
            j <= k < doc.len() ==> is_white_space(#[trigger] doc[k])) && (i < j ==> !is_white_space(
            doc[i]) && !is_white_space(doc[j - 1]));
    if trim(doc).len() == 0 {
        assert forall|k: int| 0 <= k < doc.len() implies is_white_space(#[trigger] doc[k]) by {
            assert(i == j);
        }
    } else {
        assert(!is_white_space(doc[i]));
    }
}

/// The full name of a method is the namespace, `_`, then the name; without a namespace, the
/// name alone.
pub proof fn law_method_name(namespace: Option<Seq<char>>, name: Seq<char>)
    ensures
        namespace is None ==> method_name(namespace, name) == name,
        namespace is Some ==> ({
            let ns = namespace->0;
            let full = method_name(namespace, name);
            &&& full.len() == ns.len() + 1 + name.len()
            &&& full.take(ns.len() as int) == ns
            &&& full[ns.len() as int] == '_'
            &&& full.skip(ns.len() as int + 1) == name
        }),
{
    if namespace is Some {
        let ns = namespace->0;
        let full = method_name(namespace, name);
        assert(full.take(ns.len() as int) =~= ns);
        assert(full.skip(ns.len() as int + 1) =~= name);
    }
}

/// A method's tags are the given tag, if any; a subscription's are those, then "Websocket"
/// and "PubSub". Each tag has only its name.
pub proof fn law_tags(tag: Option<Seq<char>>)
    ensures
        tag is None ==> method_tags(tag).len() == 0,
        tag is Some ==> method_tags(tag).len() == 1 && method_tags(tag)[0].name == tag->0,
        forall|i: int| 0 <= i < method_tags(tag).len() ==> #[trigger] method_tags(tag)[i] == tag_named(method_tags(tag)[i].name),
        subscription_tags(tag).len() == method_tags(tag).len() + 2,
        subscription_tags(tag).take(method_tags(tag).len() as int) == method_tags(tag),
        subscription_tags(tag)[method_tags(tag).len() as int] == tag_named("Websocket"@),
        subscription_tags(tag)[method_tags(tag).len() as int + 1] == tag_named("PubSub"@),
{
    reveal_strlit("Websocket");
    reveal_strlit("PubSub");
    assert(subscription_tags(tag).take(method_tags(tag).len() as int) =~= method_tags(tag));
    assert("Websocket"@ =~= seq!['W', 'e', 'b', 's', 'o', 'c', 'k', 'e', 't']);
    assert("PubSub"@ =~= seq!['P', 'u', 'b', 'S', 'u', 'b']);
}

/// The method that the builder records holds what it was given: its name, its parameters in
/// the given order, its result, its tags and its deprecation, and as description the doc
/// text trimmed; it has no summary, external documentation, errors or examples, and takes
/// its parameters either way.
pub proof fn law_recorded_method(
    name: Seq<char>,
    params: Seq<ContentDescriptorModel>,
    result: Option<ContentDescriptorModel>,
    doc: Seq<char>,
    tags: Seq<TagModel>,
    deprecated: bool,
)
    ensures
        ({
            let m = documented_method(name, params, result, doc, tags, deprecated);
            &&& m.name == name
            &&& m.params == params
            &&& m.result == result
            &&& m.tags == tags
            &&& m.deprecated == deprecated
            &&& m.summary is None
            &&& m.external_docs is None
            &&& m.errors.len() == 0
            &&& m.examples.len() == 0
            &&& m.param_structure == crate::document::ParamStructure::Either
            &&& (m.description is None <==> forall|k: int|
                0 <= k < doc.len() ==> is_white_space(#[trigger] doc[k]))
            &&& (m.description is Some ==> m.description->0 == trim(doc))
        }),
{
    law_method_description(doc);
}

/// A content descriptor holds what it was given: the name without its spaces, and the
/// summary, description, requirement and schema as given; it is not deprecated.
pub proof fn law_described_content(
    name: Seq<char>,
    summary: Option<Seq<char>>,
    description: Option<Seq<char>>,
    required: bool,
    schema: schemars::Schema,
)
    ensures
        ({
            let c = described_content(name, summary, description, required, schema);
            &&& c.name == without_spaces(name)
            &&& c.summary == summary
            &&& c.description == description
            &&& c.required == required
            &&& c.schema == schema
            &&& !c.deprecated
        }),
{
}

/// Removing spaces works character by character: over a concatenation it concatenates, a
/// space goes, and any other character stays.
pub proof fn law_without_spaces(a: Seq<char>, b: Seq<char>, c: char)
    ensures
        without_spaces(a + b) == without_spaces(a) + without_spaces(b),
        c == ' ' ==> without_spaces(seq![c]) == Seq::<char>::empty(),
        c != ' ' ==> without_spaces(seq![c]) == seq![c],
        without_spaces(Seq::<char>::empty()) == Seq::<char>::empty(),
{
    Seq::filter_distributes_over_add(a, b, |x: char| x != ' ');
    reveal(Seq::filter);
    assert(seq![c].drop_last() =~= Seq::<char>::empty());
    assert(Seq::<char>::empty().filter(|x: char| x != ' ') =~= Seq::<char>::empty());
    assert(Seq::<char>::empty().push(c) =~= seq![c]);
}

/// The first method of its name whose name the provider holds ends with exactly the
/// provider's examples for that name, and otherwise as it was; every other method is left
/// as it was.
pub proof fn law_examples_go_to_first_method_of_name(
    methods: Seq<MethodModel>,
    provider: Map<Seq<char>, Seq<ExamplePairingModel>>,
)
    ensures
        with_examples(methods, provider).len() == methods.len(),
        forall|i: int|
            0 <= i < methods.len() && provider.contains_key(methods[i].name) && (forall|j: int|
                0 <= j < i ==> methods[j].name != methods[i].name) ==> (#[trigger] with_examples(
                methods,
                provider,
            )[i]).examples == provider[methods[i].name] && (MethodModel {
                examples: methods[i].examples,
                ..with_examples(methods, provider)[i]
            }) == methods[i],
        forall|i: int|
            0 <= i < methods.len() && (!provider.contains_key(methods[i].name) || exists|j: int|
                0 <= j < i && methods[j].name == methods[i].name) ==> #[trigger] with_examples(
                methods,
                provider,
            )[i] == methods[i],
{
}

/// The names of the methods left without examples: one more name where the method is not
/// the first of its name among those the provider holds, none more otherwise.
pub proof fn law_names_without_examples(
    methods: Seq<MethodModel>,
    provided: Set<Seq<char>>,
    n: int,
)
    requires
        0 <= n < methods.len(),
    ensures
        names_without_examples(methods, provided, 0) == Seq::<Seq<char>>::empty(),
        (provided.contains(methods[n].name) && forall|j: int|
            0 <= j < n ==> methods[j].name != methods[n].name) ==> names_without_examples(
            methods,
            provided,
            n + 1,
        ) == names_without_examples(methods, provided, n),
        !(provided.contains(methods[n].name) && forall|j: int|
            0 <= j < n ==> methods[j].name != methods[n].name) ==> names_without_examples(
            methods,
            provided,
            n + 1,
        ) == names_without_examples(methods, provided, n).push(methods[n].name),
{
}

/// The examples fit exactly when every example provided for the first method of its name
/// names that method's parameters in order, by count and name.
pub proof fn law_examples_fit(
    methods: Seq<MethodModel>,
    provider: Map<Seq<char>, Seq<ExamplePairingModel>>,
)
    ensures
        examples_fit(methods, provider) <==> forall|i: int, e: int|
            0 <= i < methods.len() && provider.contains_key(methods[i].name) && (forall|j: int|
                0 <= j < i ==> methods[j].name != methods[i].name) && 0 <= e < provider[methods[i].name].len()
                ==> #[trigger] provider[methods[i].name][e].params.len() == methods[i].params.len()
                && forall|k: int|
                0 <= k < methods[i].params.len() ==> #[trigger] provider[methods[i].name][e].params[k].name
                    == methods[i].params[k].name,
{
    let rhs = forall|i: int, e: int|
        0 <= i < methods.len() && provider.contains_key(methods[i].name) && (forall|j: int|
            0 <= j < i ==> methods[j].name != methods[i].name) && 0 <= e < provider[methods[i].name].len()
            ==> #[trigger] provider[methods[i].name][e].params.len() == methods[i].params.len()
            && forall|k: int|
            0 <= k < methods[i].params.len() ==> #[trigger] provider[methods[i].name][e].params[k].name
                == methods[i].params[k].name;
    if examples_fit(methods, provider) {
        assert forall|i: int, e: int|
            0 <= i < methods.len() && provider.contains_key(methods[i].name) && (forall|j: int|
                0 <= j < i ==> methods[j].name != methods[i].name) && 0 <= e < provider[methods[i].name].len()
            implies #[trigger] provider[methods[i].name][e].params.len() == methods[i].params.len()
            && forall|k: int|
            0 <= k < methods[i].params.len() ==> #[trigger] provider[methods[i].name][e].params[k].name
                == methods[i].params[k].name by {
            assert(takes_examples(methods, provider.dom(), i));
            lemma_names_match(methods[i], provider[methods[i].name][e]);
        }
    }
    if rhs {
        assert forall|i: int|
            0 <= i < methods.len() && #[trigger] takes_examples(methods, provider.dom(), i) implies forall|e: int|
                0 <= e < provider[methods[i].name].len() ==> example_param_names(
                    #[trigger] provider[methods[i].name][e],
                ) == param_names(methods[i]) by {
            assert forall|e: int| 0 <= e < provider[methods[i].name].len() implies example_param_names(
                #[trigger] provider[methods[i].name][e],
            ) == param_names(methods[i]) by {
                lemma_names_match(methods[i], provider[methods[i].name][e]);
                assert(provider[methods[i].name][e].params.len() == methods[i].params.len());
            }
        }
    }
}

proof fn lemma_names_match(m: MethodModel, x: ExamplePairingModel)
    ensures
        (example_param_names(x) == param_names(m)) <==> (x.params.len() == m.params.len()
            && forall|k: int| 0 <= k < m.params.len() ==> #[trigger] x.params[k].name == m.params[k].name),
{
    if x.params.len() == m.params.len() && forall|k: int| 0 <= k < m.params.len() ==> #[trigger] x.params[k].name == m.params[k].name {
        assert(example_param_names(x) =~= param_names(m));
    }
    if example_param_names(x) == param_names(m) {
        assert(example_param_names(x).len() == x.params.len());
        assert(param_names(m).len() == m.params.len());
        assert forall|k: int| 0 <= k < m.params.len() implies #[trigger] x.params[k].name == m.params[k].name by {
            assert(example_param_names(x)[k] == x.params[k].name);
            assert(param_names(m)[k] == m.params[k].name);
        }
    }
}

} // verus!
