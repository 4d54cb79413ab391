//! The order of methods in a document: by name, stable among methods of the same name.

use vstd::prelude::*;

use crate::document::{seq_view, Method, MethodModel};
use crate::name_map::strictly_increasing;
use crate::text::{compare_names, lemma_name_order, name_le, name_lt, NameOrder};

verus! {

/// The names of the methods never decrease along `s`.
pub open spec fn sorted_by_name(s: Seq<MethodModel>) -> bool {
    forall|i: int, j: int| 0 <= i < j < s.len() ==> name_le(#[trigger] s[i].name, #[trigger] s[j].name)
}

/// The methods of `s` named `name`, in their order in `s`.
pub open spec fn named(s: Seq<MethodModel>, name: Seq<char>) -> Seq<MethodModel> {
    s.filter(|m: MethodModel| m.name == name)
}

/// `r` is `s` sorted by name, stably: sorted, and holding for each name the methods of `s`
/// of that name in the order that `s` has them. These determine `r` from `s`.
pub open spec fn stably_sorted_by_name(r: Seq<MethodModel>, s: Seq<MethodModel>) -> bool {
    &&& r.len() == s.len()
    &&& sorted_by_name(r)
    &&& forall|name: Seq<char>| #[trigger] named(r, name) == named(s, name)
}

/// No method of `s` is named `name`.
proof fn lemma_named_none(s: Seq<MethodModel>, name: Seq<char>)
    requires
        forall|i: int| 0 <= i < s.len() ==> #[trigger] s[i].name != name,
    ensures
        named(s, name) == Seq::<MethodModel>::empty(),
    decreases s.len(),
{
    reveal(Seq::filter);
    if s.len() > 0 {
        lemma_named_none(s.drop_last(), name);
    }
}

/// Appending a method adds it to its own name's methods and leaves the others alone.
proof fn lemma_named_push(s: Seq<MethodModel>, m: MethodModel, name: Seq<char>)
    ensures
        named(s.push(m), name) == if m.name == name {
            named(s, name).push(m)
        } else {
            named(s, name)
        },
{
    reveal(Seq::filter);
    assert(s.push(m).drop_last() =~= s);
}

/// The methods of a given name of a concatenation.
proof fn lemma_named_add(a: Seq<MethodModel>, b: Seq<MethodModel>, name: Seq<char>)
    ensures
        named(a + b, name) == named(a, name) + named(b, name),
{
    Seq::filter_distributes_over_add(a, b, |m: MethodModel| m.name == name);
}

/// Inserting `m` after every method whose name is not above its own, and before every
/// method whose name is above, keeps a sorted sequence sorted, and adds `m` last among the
/// methods of its name.
proof fn lemma_insert_after_equals(s: Seq<MethodModel>, p: int, m: MethodModel)
    requires
        sorted_by_name(s),
        0 <= p <= s.len(),
        forall|j: int| 0 <= j < p ==> name_le(#[trigger] s[j].name, m.name),
        forall|j: int| p <= j < s.len() ==> name_lt(m.name, #[trigger] s[j].name),
    ensures
        sorted_by_name(s.insert(p, m)),
        forall|name: Seq<char>|
            #[trigger] named(s.insert(p, m), name) == if m.name == name {
                named(s, name).push(m)
            } else {
                named(s, name)
            },
{
    let t = s.insert(p, m);
    assert forall|i: int, j: int| 0 <= i < j < t.len() implies name_le(#[trigger] t[i].name, #[trigger] t[j].name) by {
        if i < p && j > p {
            assert(name_le(s[i].name, s[j - 1].name));
        } else if j < p {
            assert(name_le(s[i].name, s[j].name));
        } else if i > p {
            assert(name_le(s[i - 1].name, s[j - 1].name));
        }
    }
    let before = s.take(p);
    let after = s.skip(p);
    assert(s =~= before + after);
    assert(t =~= before.push(m) + after);
    assert forall|name: Seq<char>| #[trigger] named(t, name) == if m.name == name {
        named(s, name).push(m)
    } else {
        named(s, name)
    } by {
        lemma_named_add(before.push(m), after, name);
        lemma_named_add(before, after, name);
        lemma_named_push(before, m, name);
        if m.name == name {
            assert forall|i: int| 0 <= i < after.len() implies #[trigger] after[i].name != name by {
                assert(name_lt(m.name, s[p + i].name));
                lemma_name_order(m.name, m.name, m.name);
            }
            lemma_named_none(after, name);
            assert(named(before, name) + Seq::<MethodModel>::empty() =~= named(before, name));
            assert(named(before, name).push(m) + Seq::<MethodModel>::empty() =~= named(
                before,
                name,
            ).push(m));
        } else {
            assert(named(before.push(m), name) == named(before, name));
        }
    }
}

/// A method of `s` whose name is `name` stands in `named(s, name)`, and every method there
/// stands in `s` under that name.
proof fn lemma_named_members(s: Seq<MethodModel>, name: Seq<char>)
    ensures
        forall|i: int| 0 <= i < named(s, name).len() ==> #[trigger] named(s, name)[i].name == name,
        forall|i: int| 0 <= i < named(s, name).len() ==> s.contains(#[trigger] named(s, name)[i]),
    decreases s.len(),
{
    reveal(Seq::filter);
    if s.len() > 0 {
        lemma_named_members(s.drop_last(), name);
        let t = named(s.drop_last(), name);
        assert forall|i: int| 0 <= i < named(s, name).len() implies s.contains(#[trigger] named(s, name)[i]) by {
            if i < t.len() {
                assert(named(s, name)[i] == t[i]);
                let j = choose|j: int| 0 <= j < s.drop_last().len() && s.drop_last()[j] == t[i];
                assert(s[j] == t[i]);
            } else {
                assert(named(s, name)[i] == s.last());
                assert(s[s.len() - 1] == s.last());
            }
        }
    }
}

/// A stable sort by name has one outcome: two sequences that are both `s` stably sorted by
/// name are equal.
pub proof fn law_stable_sort_is_unique(r1: Seq<MethodModel>, r2: Seq<MethodModel>, s: Seq<MethodModel>)
    requires
        stably_sorted_by_name(r1, s),
        stably_sorted_by_name(r2, s),
    ensures
        r1 == r2,
{
    lemma_sorted_same_named_equal(r1, r2);
}

/// Two sequences sorted by name that hold the same methods under each name are equal.
proof fn lemma_sorted_same_named_equal(r1: Seq<MethodModel>, r2: Seq<MethodModel>)
    requires
        r1.len() == r2.len(),
        sorted_by_name(r1),
        sorted_by_name(r2),
        forall|name: Seq<char>| #[trigger] named(r1, name) == named(r2, name),
    ensures
        r1 == r2,
    decreases r1.len(),
{
    if r1.len() == 0 {
        assert(r1 =~= r2);
    } else {
        let a = r1.last();
        let b = r2.last();
        let n1 = r1.len() - 1;
        let n2 = r2.len() - 1;
        assert(r1.drop_last().push(a) =~= r1);
        assert(r2.drop_last().push(b) =~= r2);
        lemma_named_push(r1.drop_last(), a, a.name);
        lemma_named_push(r2.drop_last(), b, b.name);
        // b's name occurs in r1, so it is at most a's name; and the other way round.
        assert(named(r1, b.name) == named(r2, b.name));
        lemma_named_members(r1, b.name);
        let k1 = named(r1, b.name).len() - 1;
        assert(r1.contains(named(r1, b.name)[k1]));
        let i1 = choose|i: int| 0 <= i < r1.len() && r1[i] == named(r1, b.name)[k1];
        assert(r1[i1].name == b.name);
        assert(name_le(b.name, a.name)) by {
            if i1 < n1 {
                assert(name_le(r1[i1].name, r1[n1].name));
            }
        }
        assert(named(r1, a.name) == named(r2, a.name));
        lemma_named_members(r2, a.name);
        let k2 = named(r2, a.name).len() - 1;
        assert(r2.contains(named(r2, a.name)[k2]));
        let i2 = choose|i: int| 0 <= i < r2.len() && r2[i] == named(r2, a.name)[k2];
        assert(r2[i2].name == a.name);
        assert(name_le(a.name, b.name)) by {
            if i2 < n2 {
                assert(name_le(r2[i2].name, r2[n2].name));
            }
        }
        lemma_name_order(a.name, b.name, a.name);
        assert(a.name == b.name);
        assert(named(r1, a.name) == named(r1.drop_last(), a.name).push(a));
        assert(named(r2, a.name) == named(r2.drop_last(), a.name).push(b));
        assert(a == named(r1, a.name).last());
        assert(b == named(r2, a.name).last());
        assert forall|name: Seq<char>| #[trigger] named(r1.drop_last(), name) == named(r2.drop_last(), name) by {
            lemma_named_push(r1.drop_last(), a, name);
            lemma_named_push(r2.drop_last(), b, name);
            if name == a.name {
                assert(named(r1.drop_last(), name) =~= named(r1, name).drop_last());
                assert(named(r2.drop_last(), name) =~= named(r2, name).drop_last());
            }
        }
        lemma_sorted_same_named_equal(r1.drop_last(), r2.drop_last());
        assert(r1 =~= r2);
    }
}

/// The names of the methods of `s`, in order.
pub open spec fn method_names(s: Seq<MethodModel>) -> Seq<Seq<char>> {
    s.map_values(|m: MethodModel| m.name)
}

/// A method named `name` makes `named(s, name)` non-empty.
proof fn lemma_named_nonempty(s: Seq<MethodModel>, name: Seq<char>, i: int)
    requires
        0 <= i < s.len(),
        s[i].name == name,
    ensures
        named(s, name).len() >= 1,
{
    s.lemma_filter_contains(|m: MethodModel| m.name == name, i);
}

/// Two methods named `name` make `named(s, name)` hold at least two.
proof fn lemma_named_two(s: Seq<MethodModel>, name: Seq<char>, i: int, j: int)
    requires
        0 <= i < j < s.len(),
        s[i].name == name,
        s[j].name == name,
    ensures
        named(s, name).len() >= 2,
    decreases s.len(),
{
    let d = s.drop_last();
    assert(d.push(s.last()) =~= s);
    lemma_named_push(d, s.last(), name);
    if j < s.len() - 1 {
        lemma_named_two(d, name, i, j);
    } else {
        lemma_named_nonempty(d, name, i);
    }
}

/// Where names strictly increase, at most one method has a given name.
proof fn lemma_named_at_most_one(s: Seq<MethodModel>, name: Seq<char>)
    requires
        strictly_increasing(method_names(s)),
    ensures
        named(s, name).len() <= 1,
    decreases s.len(),
{
    if s.len() > 0 {
        let d = s.drop_last();
        assert(d.push(s.last()) =~= s);
        lemma_named_push(d, s.last(), name);
        assert(strictly_increasing(method_names(d))) by {
            assert forall|i: int, j: int| 0 <= i < j < method_names(d).len() implies name_lt(
                #[trigger] method_names(d)[i],
                #[trigger] method_names(d)[j],
            ) by {
                assert(name_lt(method_names(s)[i], method_names(s)[j]));
            }
        }
        if s.last().name == name {
            assert forall|i: int| 0 <= i < d.len() implies #[trigger] d[i].name != name by {
                assert(name_lt(method_names(s)[i], method_names(s)[s.len() - 1]));
                lemma_name_order(name, name, name);
            }
            lemma_named_none(d, name);
        } else {
            lemma_named_at_most_one(d, name);
        }
    }
}

/// Two sequences sorted by name that hold as many methods under each name have the same
/// names in the same order.
proof fn lemma_sorted_same_counts_same_names(r1: Seq<MethodModel>, r2: Seq<MethodModel>)
    requires
        r1.len() == r2.len(),
        sorted_by_name(r1),
        sorted_by_name(r2),
        forall|name: Seq<char>| #[trigger] named(r1, name).len() == named(r2, name).len(),
    ensures
        method_names(r1) == method_names(r2),
    decreases r1.len(),
{
    if r1.len() == 0 {
        assert(method_names(r1) =~= method_names(r2));
    } else {
        let a = r1.last();
        let b = r2.last();
        let n1 = r1.len() - 1;
        let n2 = r2.len() - 1;
        let d1 = r1.drop_last();
        let d2 = r2.drop_last();
        assert(d1.push(a) =~= r1);
        assert(d2.push(b) =~= r2);
        lemma_named_nonempty(r2, b.name, n2);
        assert(named(r1, b.name).len() == named(r2, b.name).len());
        lemma_named_members(r1, b.name);
        assert(r1.contains(named(r1, b.name)[0]));
        let i1 = choose|i: int| 0 <= i < r1.len() && r1[i] == named(r1, b.name)[0];
        assert(name_le(b.name, a.name)) by {
            if i1 < n1 {
                assert(name_le(r1[i1].name, r1[n1].name));
            }
        }
        lemma_named_nonempty(r1, a.name, n1);
        assert(named(r1, a.name).len() == named(r2, a.name).len());
        lemma_named_members(r2, a.name);
        assert(r2.contains(named(r2, a.name)[0]));
        let i2 = choose|i: int| 0 <= i < r2.len() && r2[i] == named(r2, a.name)[0];
        assert(name_le(a.name, b.name)) by {
            if i2 < n2 {
                assert(name_le(r2[i2].name, r2[n2].name));
            }
        }
        lemma_name_order(a.name, b.name, a.name);
        assert(a.name == b.name);
        assert forall|name: Seq<char>| #[trigger] named(d1, name).len() == named(d2, name).len() by {
            lemma_named_push(d1, a, name);
            lemma_named_push(d2, b, name);
            assert(named(r1, name).len() == named(r2, name).len());
        }
        assert(sorted_by_name(d1)) by {
            assert forall|i: int, j: int| 0 <= i < j < d1.len() implies name_le(#[trigger] d1[i].name, #[trigger] d1[j].name) by {
                assert(name_le(r1[i].name, r1[j].name));
            }
        }
        assert(sorted_by_name(d2)) by {
            assert forall|i: int, j: int| 0 <= i < j < d2.len() implies name_le(#[trigger] d2[i].name, #[trigger] d2[j].name) by {
                assert(name_le(r2[i].name, r2[j].name));
            }
        }
        lemma_sorted_same_counts_same_names(d1, d2);
        assert(method_names(r1) =~= method_names(d1).push(a.name));
        assert(method_names(r2) =~= method_names(d2).push(b.name));
    }
}

/// The order in which modules are added does not change the order of the names: adding `a`
/// then `b` to methods `p` gives the names that adding `b` then `a` gives.
pub proof fn law_module_order_does_not_matter(
    p: Seq<MethodModel>,
    a: Seq<MethodModel>,
    b: Seq<MethodModel>,
    s1: Seq<MethodModel>,
    r1: Seq<MethodModel>,
    s2: Seq<MethodModel>,
    r2: Seq<MethodModel>,
)
    requires
        stably_sorted_by_name(s1, p + a),
        stably_sorted_by_name(r1, s1 + b),
        stably_sorted_by_name(s2, p + b),
        stably_sorted_by_name(r2, s2 + a),
    ensures
        method_names(r1) == method_names(r2),
{
    assert forall|name: Seq<char>| #[trigger] named(r1, name).len() == named(r2, name).len() by {
        lemma_named_add(s1, b, name);
        lemma_named_add(p, a, name);
        lemma_named_add(s2, a, name);
        lemma_named_add(p, b, name);
        assert(named(r1, name) == named(s1 + b, name));
        assert(named(r2, name) == named(s2 + a, name));
        assert(named(s1, name) == named(p + a, name));
        assert(named(s2, name) == named(p + b, name));
    }
    lemma_sorted_same_counts_same_names(r1, r2);
}

/// Adding methods whose names are distinct and not yet taken keeps every name unique: the
/// names of the result strictly increase.
pub proof fn law_distinct_names_stay_unique(
    s: Seq<MethodModel>,
    a: Seq<MethodModel>,
    r: Seq<MethodModel>,
)
    requires
        strictly_increasing(method_names(s)),
        strictly_increasing(method_names(a)),
        forall|i: int, j: int| 0 <= i < s.len() && 0 <= j < a.len() ==> #[trigger] s[i].name != #[trigger] a[j].name,
        stably_sorted_by_name(r, s + a),
    ensures
        strictly_increasing(method_names(r)),
{
    assert forall|i: int, j: int| 0 <= i < j < method_names(r).len() implies name_lt(
        #[trigger] method_names(r)[i],
        #[trigger] method_names(r)[j],
    ) by {
        assert(name_le(r[i].name, r[j].name));
        if r[i].name == r[j].name {
            let name = r[i].name;
            lemma_named_two(r, name, i, j);
            assert(named(r, name) == named(s + a, name));
            lemma_named_add(s, a, name);
            lemma_named_at_most_one(s, name);
            lemma_named_at_most_one(a, name);
            if named(s, name).len() == 1 && named(a, name).len() == 1 {
                lemma_named_members(s, name);
                lemma_named_members(a, name);
                assert(s.contains(named(s, name)[0]));
                assert(a.contains(named(a, name)[0]));
                let x = choose|x: int| 0 <= x < s.len() && s[x] == named(s, name)[0];
                let y = choose|y: int| 0 <= y < a.len() && a[y] == named(a, name)[0];
                assert(s[x].name != a[y].name);
            }
        }
    }
}

/// `methods` sorted by name, stably: methods of the same name keep their order.
pub fn sort_methods_by_name(methods: Vec<Method>) -> (r: Vec<Method>)
    ensures
        stably_sorted_by_name(seq_view(r@), seq_view(methods@)),
{
    let ghost orig = seq_view(methods@);
    let ghost input = methods@;
    let mut rest = methods;
    let mut sorted: Vec<Method> = Vec::new();
    let ghost mut i: int = 0;
    assert(input.skip(0) =~= input);
    proof {
        assert forall|name: Seq<char>| #[trigger] named(seq_view(sorted@), name) == named(orig.take(0), name) by {
            reveal(Seq::filter);
            assert(seq_view(sorted@) =~= Seq::<MethodModel>::empty());
            assert(orig.take(0) =~= Seq::<MethodModel>::empty());
        }
    }
    while rest.len() > 0
        invariant
            0 <= i <= input.len(),
            orig == seq_view(input),
            rest@ == input.skip(i),
            sorted@.len() == i,
            sorted_by_name(seq_view(sorted@)),
            forall|name: Seq<char>| #[trigger] named(seq_view(sorted@), name) == named(orig.take(i), name),
        decreases rest.len(),
    {
        let m = rest.remove(0);
        let ghost s = seq_view(sorted@);
        proof {
            assert(m == input[i]);
            assert(rest@ =~= input.skip(i + 1));
        }
        let mut p: usize = sorted.len();
        while p > 0 && compare_names(m.name.as_str(), sorted[p - 1].name.as_str()) == NameOrder::Less
            invariant
                s == seq_view(sorted@),
                p <= sorted@.len(),
                forall|j: int| p <= j < s.len() ==> name_lt(m@.name, #[trigger] s[j].name),
            decreases p,
        {
            p = p - 1;
        }
        proof {
            if p > 0 {
                let last = s[p - 1].name;
                lemma_name_order(m@.name, last, last);
                assert(name_le(last, m@.name));
                assert forall|j: int| 0 <= j < p implies name_le(#[trigger] s[j].name, m@.name) by {
                    if j < p - 1 {
                        assert(name_le(s[j].name, last));
                        lemma_name_order(s[j].name, last, m@.name);
                    }
                }
            }
            lemma_insert_after_equals(s, p as int, m@);
        }
        sorted.insert(p, m);
        proof {
            assert(seq_view(sorted@) =~= s.insert(p as int, input[i]@));
            assert(orig.take(i + 1) =~= orig.take(i).push(orig[i]));
            assert forall|name: Seq<char>| #[trigger] named(seq_view(sorted@), name) == named(orig.take(i + 1), name) by {
                lemma_named_push(orig.take(i), orig[i], name);
            }
            i = i + 1;
        }
    }
    proof {
        assert(orig.take(i) =~= orig);
    }
    sorted
}

} // verus!
