//! `NameMap`: a map from names to values that keeps its entries in increasing name order.

use vstd::prelude::*;

use crate::text::{compare_names, lemma_name_order, name_lt, NameOrder};

verus! {

/// Names strictly increase along `ks`: sorted, with no name twice.
pub open spec fn strictly_increasing(ks: Seq<Seq<char>>) -> bool {
    forall|i: int, j: int| 0 <= i < j < ks.len() ==> name_lt(#[trigger] ks[i], #[trigger] ks[j])
}

/// The names of a sequence of entries.
pub open spec fn entry_keys<V>(s: Seq<(String, V)>) -> Seq<Seq<char>> {
    s.map_values(|e: (String, V)| e.0@)
}

/// The values of a sequence of entries.
pub open spec fn entry_values<V>(s: Seq<(String, V)>) -> Seq<V> {
    s.map_values(|e: (String, V)| e.1)
}

/// The map that sends `ks[i]` to `vs[i]`.
pub open spec fn pairs_map<V>(ks: Seq<Seq<char>>, vs: Seq<V>) -> Map<Seq<char>, V> {
    Map::new(|k: Seq<char>| ks.contains(k), |k: Seq<char>| vs[ks.index_of(k)])
}

/// With distinct names, entry `i` is what the map holds for name `ks[i]`.
pub proof fn lemma_pairs_map_at<V>(ks: Seq<Seq<char>>, vs: Seq<V>, i: int)
    requires
        strictly_increasing(ks),
        ks.len() == vs.len(),
        0 <= i < ks.len(),
    ensures
        pairs_map(ks, vs).contains_key(ks[i]),
        pairs_map(ks, vs)[ks[i]] == vs[i],
{
    assert(ks.contains(ks[i]));
    let j = ks.index_of(ks[i]);
    if j != i {
        lemma_name_order(ks[i], ks[j], ks[i]);
    }
}

/// Placing `k` where every name before is smaller and every name after is larger keeps the
/// names strictly increasing.
proof fn lemma_insert_increasing(ks: Seq<Seq<char>>, i: int, k: Seq<char>)
    requires
        strictly_increasing(ks),
        0 <= i <= ks.len(),
        forall|j: int| 0 <= j < i ==> name_lt(#[trigger] ks[j], k),
        forall|j: int| i <= j < ks.len() ==> name_lt(k, #[trigger] ks[j]),
    ensures
        strictly_increasing(ks.insert(i, k)),
{
    let n = ks.insert(i, k);
    assert forall|a: int, b: int| 0 <= a < b < n.len() implies name_lt(#[trigger] n[a], #[trigger] n[b]) by {
        if a < i && b > i {
            assert(n[b] == ks[b - 1]);
            assert(name_lt(ks[a], ks[b - 1]));
        } else if b < i {
            assert(name_lt(ks[a], ks[b]));
        } else if a > i {
            assert(name_lt(ks[a - 1], ks[b - 1]));
        }
    }
}

/// Removing one name keeps the names strictly increasing.
proof fn lemma_remove_increasing(ks: Seq<Seq<char>>, i: int)
    requires
        strictly_increasing(ks),
        0 <= i < ks.len(),
    ensures
        strictly_increasing(ks.remove(i)),
{
    let n = ks.remove(i);
    assert forall|a: int, b: int| 0 <= a < b < n.len() implies name_lt(#[trigger] n[a], #[trigger] n[b]) by {
        if b < i {
            assert(name_lt(ks[a], ks[b]));
        } else if a < i {
            assert(name_lt(ks[a], ks[b + 1]));
        } else {
            assert(name_lt(ks[a + 1], ks[b + 1]));
        }
    }
}

/// Inserting a new name at its place inserts it into the map.
proof fn lemma_pairs_map_insert<V>(ks: Seq<Seq<char>>, vs: Seq<V>, i: int, k: Seq<char>, v: V)
    requires
        0 <= i <= ks.len(),
        strictly_increasing(ks),
        strictly_increasing(ks.insert(i, k)),
        ks.len() == vs.len(),
    ensures
        pairs_map(ks.insert(i, k), vs.insert(i, v)) == pairs_map(ks, vs).insert(k, v),
{
    let nk = ks.insert(i, k);
    let nv = vs.insert(i, v);
    let old_map = pairs_map(ks, vs);
    let new_map = pairs_map(nk, nv);
    assert forall|x: Seq<char>| #[trigger] new_map.contains_key(x) <==> old_map.insert(k, v).contains_key(x) by {
        if nk.contains(x) {
            let j = nk.index_of(x);
            if j < i {
                assert(ks[j] == x);
            } else if j > i {
                assert(ks[j - 1] == x);
            }
        }
        if ks.contains(x) {
            let j = ks.index_of(x);
            if j < i {
                assert(nk[j] == x);
            } else {
                assert(nk[j + 1] == x);
            }
        }
        if x == k {
            assert(nk[i] == k);
        }
    }
    assert forall|x: Seq<char>| #[trigger] new_map.contains_key(x) implies new_map[x] == old_map.insert(k, v)[x] by {
        let j = nk.index_of(x);
        assert(0 <= j < nk.len() && nk[j] == x);
        lemma_pairs_map_at(nk, nv, j);
        lemma_name_order(x, x, x);
        if j < i {
            assert(name_lt(nk[j], nk[i]));
            lemma_pairs_map_at(ks, vs, j);
        } else if j > i {
            assert(name_lt(nk[i], nk[j]));
            lemma_pairs_map_at(ks, vs, j - 1);
        }
    }
    assert(new_map =~= old_map.insert(k, v));
}

/// Replacing the value at a place replaces it in the map.
proof fn lemma_pairs_map_update<V>(ks: Seq<Seq<char>>, vs: Seq<V>, i: int, v: V)
    requires
        strictly_increasing(ks),
        ks.len() == vs.len(),
        0 <= i < ks.len(),
    ensures
        pairs_map(ks, vs.update(i, v)) == pairs_map(ks, vs).insert(ks[i], v),
{
    let nv = vs.update(i, v);
    let old_map = pairs_map(ks, vs);
    let new_map = pairs_map(ks, nv);
    assert(ks.contains(ks[i]));
    assert forall|x: Seq<char>| #[trigger] new_map.contains_key(x) implies new_map[x] == old_map.insert(ks[i], v)[x] by {
        let j = ks.index_of(x);
        assert(0 <= j < ks.len() && ks[j] == x);
        lemma_pairs_map_at(ks, nv, j);
        lemma_pairs_map_at(ks, vs, j);
        lemma_name_order(x, x, x);
        if j < i {
            assert(name_lt(ks[j], ks[i]));
        } else if j > i {
            assert(name_lt(ks[i], ks[j]));
        }
    }
    assert(new_map =~= old_map.insert(ks[i], v));
}

/// Removing the entry at a place removes its name from the map.
proof fn lemma_pairs_map_remove<V>(ks: Seq<Seq<char>>, vs: Seq<V>, i: int)
    requires
        strictly_increasing(ks),
        ks.len() == vs.len(),
        0 <= i < ks.len(),
    ensures
        pairs_map(ks.remove(i), vs.remove(i)) == pairs_map(ks, vs).remove(ks[i]),
{
    let nk = ks.remove(i);
    let nv = vs.remove(i);
    lemma_remove_increasing(ks, i);
    let old_map = pairs_map(ks, vs);
    let new_map = pairs_map(nk, nv);
    assert forall|x: Seq<char>| #[trigger] new_map.contains_key(x) <==> old_map.remove(ks[i]).contains_key(x) by {
        if nk.contains(x) {
            let j = nk.index_of(x);
            if j < i {
                assert(ks[j] == x);
                assert(name_lt(ks[j], ks[i]));
                lemma_name_order(x, x, x);
            } else {
                assert(ks[j + 1] == x);
                assert(name_lt(ks[i], ks[j + 1]));
                lemma_name_order(x, x, x);
            }
        }
        if ks.contains(x) && x != ks[i] {
            let j = ks.index_of(x);
            if j < i {
                assert(nk[j] == x);
            } else {
                assert(nk[j - 1] == x);
            }
        }
    }
    assert forall|x: Seq<char>| #[trigger] new_map.contains_key(x) implies new_map[x] == old_map.remove(ks[i])[x] by {
        let j = nk.index_of(x);
        assert(0 <= j < nk.len() && nk[j] == x);
        lemma_pairs_map_at(nk, nv, j);
        if j < i {
            lemma_pairs_map_at(ks, vs, j);
        } else {
            lemma_pairs_map_at(ks, vs, j + 1);
        }
    }
    assert(new_map =~= old_map.remove(ks[i]));
}

/// The names and values of a sequence of entries, as pairs of views and values.
pub open spec fn entry_pairs<V>(s: Seq<(String, V)>) -> Seq<(Seq<char>, V)> {
    s.map_values(|e: (String, V)| (e.0@, e.1))
}

/// `m` with the pairs of `entries` inserted one after the other: a later pair wins over an
/// earlier one of the same name.
pub open spec fn insert_all<V>(m: Map<Seq<char>, V>, entries: Seq<(Seq<char>, V)>) -> Map<
    Seq<char>,
    V,
>
    decreases entries.len(),
{
    if entries.len() == 0 {
        m
    } else {
        insert_all(m, entries.drop_last()).insert(entries.last().0, entries.last().1)
    }
}

/// A map from names to values whose entries are kept sorted by name, with no name twice, so
/// that its values come out in name order. Names are compared byte by byte, as Rust compares
/// strings.
#[derive(Debug)]
pub struct NameMap<V> {
    entries: Vec<(String, V)>,
}

impl<V> View for NameMap<V> {
    type V = Map<Seq<char>, V>;

    closed spec fn view(&self) -> Map<Seq<char>, V> {
        pairs_map(self.keys_in_order(), self.values_in_order())
    }
}

impl<V> NameMap<V> {
    /// The names held, in increasing order.
    pub closed spec fn keys_in_order(&self) -> Seq<Seq<char>> {
        entry_keys(self.entries@)
    }

    /// The values held, in the order of their names.
    pub closed spec fn values_in_order(&self) -> Seq<V> {
        entry_values(self.entries@)
    }

    /// The names are held in strictly increasing order: true of every map that the
    /// functions of this type hand out.
    pub open spec fn ordered(&self) -> bool {
        strictly_increasing(self.keys_in_order())
    }

    #[verifier::type_invariant]
    spec fn sorted(&self) -> bool {
        self.ordered()
    }

    /// Names increase strictly along `keys_in_order`, each value of `values_in_order` is what
    /// the map holds for the name at the same place, and every name of the map occurs there.
    pub proof fn lemma_in_order(&self)
        requires
            self.ordered(),
        ensures
            strictly_increasing(self.keys_in_order()),
            self.keys_in_order().len() == self.values_in_order().len(),
            self@ == pairs_map(self.keys_in_order(), self.values_in_order()),
            forall|i: int|
                0 <= i < self.keys_in_order().len() ==> #[trigger] self@.contains_key(
                    self.keys_in_order()[i],
                ) && self@[self.keys_in_order()[i]] == self.values_in_order()[i],
            forall|k: Seq<char>| #[trigger]
                self@.contains_key(k) <==> self.keys_in_order().contains(k),
    {
        assert forall|i: int| 0 <= i < self.keys_in_order().len() implies #[trigger] self@.contains_key(
            self.keys_in_order()[i],
        ) && self@[self.keys_in_order()[i]] == self.values_in_order()[i] by {
            lemma_pairs_map_at(self.keys_in_order(), self.values_in_order(), i);
        }
    }

    /// The map holds as many names as there are entries.
    proof fn lemma_len(&self)
        requires
            self.ordered(),
        ensures
            self@.len() == self.values_in_order().len(),
    {
        self.lemma_in_order();
        let ks = self.keys_in_order();
        assert(ks.no_duplicates()) by {
            assert forall|i: int, j: int| 0 <= i < ks.len() && 0 <= j < ks.len() && i != j implies ks[i]
                != ks[j] by {
                if i < j {
                    lemma_name_order(ks[i], ks[j], ks[j]);
                } else {
                    lemma_name_order(ks[j], ks[i], ks[i]);
                }
            }
        }
        ks.unique_seq_to_set();
        assert(self@.dom() =~= ks.to_set());
    }

    /// An empty map.
    pub fn new() -> (m: Self)
        ensures
            m@.dom() == Set::<Seq<char>>::empty(),
            m.keys_in_order().len() == 0,
            m.ordered(),
    {
        let m = NameMap { entries: Vec::new() };
        assert(m@ =~= Map::<Seq<char>, V>::empty());
        m
    }

    /// The number of names held.
    pub fn len(&self) -> (r: usize)
        ensures
            r == self@.len(),
            self.ordered(),
    {
        proof {
            use_type_invariant(self);
            self.lemma_len();
        }
        self.entries.len()
    }

    /// Whether no name is held.
    pub fn is_empty(&self) -> (r: bool)
        ensures
            r == (self@.len() == 0),
            self.ordered(),
    {
        self.len() == 0
    }

    /// Where `key` stands or would stand: every name before the place is smaller, every
    /// name from it on is not smaller, and `found` tells whether the name at the place is `key`.
    fn locate(&self, key: &str) -> (r: (usize, bool))
        ensures
            r.0 <= self.keys_in_order().len(),
            forall|i: int| 0 <= i < r.0 ==> name_lt(#[trigger] self.keys_in_order()[i], key@),
            forall|i: int|
                r.0 <= i < self.keys_in_order().len() ==> name_lt(
                    key@,
                    #[trigger] self.keys_in_order()[i],
                ) || (i == r.0 && r.1),
            r.1 <==> (r.0 < self.keys_in_order().len() && self.keys_in_order()[r.0 as int]
                == key@),
    {
        proof {
            use_type_invariant(self);
        }
        let ghost ks = self.keys_in_order();
        let n = self.entries.len();
        let mut i: usize = 0;
        while i < n
            invariant
                n == ks.len(),
                ks == self.keys_in_order(),
                strictly_increasing(ks),
                i <= n,
                forall|j: int| 0 <= j < i ==> name_lt(#[trigger] ks[j], key@),
            decreases n - i,
        {
            match compare_names(self.entries[i].0.as_str(), key) {
                NameOrder::Less => {
                    i = i + 1;
                },
                NameOrder::Equal => {
                    proof {
                        assert forall|j: int| i < j < n implies name_lt(key@, #[trigger] ks[j]) by {
                            assert(name_lt(ks[i as int], ks[j]));
                        }
                    }
                    return (i, true);
                },
                NameOrder::Greater => {
                    proof {
                        assert forall|j: int| i <= j < n implies name_lt(key@, #[trigger] ks[j]) by {
                            if j > i {
                                assert(name_lt(ks[i as int], ks[j]));
                                lemma_name_order(key@, ks[i as int], ks[j]);
                            }
                        }
                    }
                    return (i, false);
                },
            }
        }
        (i, false)
    }

    /// Whether `key` is held.
    pub fn contains_key(&self, key: &str) -> (r: bool)
        ensures
            r == self@.contains_key(key@),
            self.ordered(),
    {
        let (i, found) = self.locate(key);
        proof {
            use_type_invariant(self);
            self.lemma_in_order();
            if !found {
                let ks = self.keys_in_order();
                if ks.contains(key@) {
                    let j = ks.index_of(key@);
                    lemma_name_order(key@, key@, key@);
                    assert(name_lt(ks[j], key@) || name_lt(key@, ks[j]));
                }
            }
        }
        found
    }

    /// The value held for `key`, if any.
    pub fn get(&self, key: &str) -> (r: Option<&V>)
        ensures
            match r {
                Some(v) => self@.contains_key(key@) && *v == self@[key@],
                None => !self@.contains_key(key@),
            },
            self.ordered(),
    {
        let (i, found) = self.locate(key);
        proof {
            use_type_invariant(self);
            self.lemma_in_order();
            if !found {
                let ks = self.keys_in_order();
                if ks.contains(key@) {
                    let j = ks.index_of(key@);
                    lemma_name_order(key@, key@, key@);
                    assert(name_lt(ks[j], key@) || name_lt(key@, ks[j]));
                }
            }
        }
        if found {
            Some(&self.entries[i].1)
        } else {
            None
        }
    }
    /// Holds `value` for `key`, giving back the value held before, if any. Where `key` was
    /// held, its name string stays and only the value changes.
    pub fn insert(&mut self, key: String, value: V) -> (r: Option<V>)
        ensures
            final(self)@ == old(self)@.insert(key@, value),
            match r {
                Some(v) => old(self)@.contains_key(key@) && v == old(self)@[key@],
                None => !old(self)@.contains_key(key@),
            },
            old(self).ordered(),
            final(self).ordered(),
    {
        proof {
            use_type_invariant(&*self);
            self.lemma_in_order();
        }
        let (i, found) = self.locate(key.as_str());
        let ghost ks = self.keys_in_order();
        let ghost vs = self.values_in_order();
        let mut entries: Vec<(String, V)> = Vec::new();
        std::mem::swap(&mut entries, &mut self.entries);
        if found {
            proof {
                lemma_pairs_map_at(ks, vs, i as int);
            }
            let (k, old_value) = entries.remove(i);
            entries.insert(i, (k, value));
            proof {
                assert(entry_keys(entries@) =~= ks);
                assert(entry_values(entries@) =~= vs.update(i as int, value));
                lemma_pairs_map_update(ks, vs, i as int, value);
            }
            self.entries = entries;
            Some(old_value)
        } else {
            proof {
                if ks.contains(key@) {
                    let j = ks.index_of(key@);
                    lemma_name_order(key@, key@, key@);
                }
                lemma_insert_increasing(ks, i as int, key@);
            }
            let ghost kv = key@;
            entries.insert(i, (key, value));
            proof {
                assert(entry_keys(entries@) =~= ks.insert(i as int, kv));
                assert(entry_values(entries@) =~= vs.insert(i as int, value));
                lemma_pairs_map_insert(ks, vs, i as int, kv, value);
            }
            self.entries = entries;
            None
        }
    }

    /// Removes `key`, giving back the value held for it, if any.
    pub fn remove(&mut self, key: &str) -> (r: Option<V>)
        ensures
            final(self)@ == old(self)@.remove(key@),
            match r {
                Some(v) => old(self)@.contains_key(key@) && v == old(self)@[key@],
                None => !old(self)@.contains_key(key@),
            },
            old(self).ordered(),
            final(self).ordered(),
    {
        proof {
            use_type_invariant(&*self);
            self.lemma_in_order();
        }
        let (i, found) = self.locate(key);
        let ghost ks = self.keys_in_order();
        let ghost vs = self.values_in_order();
        if found {
            proof {
                lemma_pairs_map_at(ks, vs, i as int);
                lemma_remove_increasing(ks, i as int);
            }
            let mut entries: Vec<(String, V)> = Vec::new();
            std::mem::swap(&mut entries, &mut self.entries);
            let (_k, v) = entries.remove(i);
            proof {
                assert(entry_keys(entries@) =~= ks.remove(i as int));
                assert(entry_values(entries@) =~= vs.remove(i as int));
                lemma_pairs_map_remove(ks, vs, i as int);
            }
            self.entries = entries;
            Some(v)
        } else {
            proof {
                if ks.contains(key@) {
                    let j = ks.index_of(key@);
                    lemma_name_order(key@, key@, key@);
                    assert(name_lt(ks[j], key@) || name_lt(key@, ks[j]));
                }
                assert(old(self)@.remove(key@) =~= old(self)@);
            }
            None
        }
    }
    /// Holds every entry of `other`, in name order, over what `self` holds: where both hold a
    /// name, the value of `other` wins.
    pub fn extend(&mut self, other: NameMap<V>)
        ensures
            final(self)@ == old(self)@.union_prefer_right(other@),
            old(self).ordered(),
            other.ordered(),
            final(self).ordered(),
    {
        proof {
            use_type_invariant(&*self);
            use_type_invariant(&other);
        }
        let ghost ks = other.keys_in_order();
        let ghost vs = other.values_in_order();
        let mut rest = other.entries;
        let ghost orig = rest@;
        let ghost mut i: int = 0;
        assert(orig.skip(0) =~= orig);
        assert(pairs_map(ks.take(0), vs.take(0)) =~= Map::<Seq<char>, V>::empty());
        assert(old(self)@.union_prefer_right(Map::<Seq<char>, V>::empty()) =~= old(self)@);
        while rest.len() > 0
            invariant
                0 <= i <= orig.len(),
                rest@ == orig.skip(i),
                ks == entry_keys(orig),
                vs == entry_values(orig),
                strictly_increasing(ks),
                self.ordered(),
                self@ == old(self)@.union_prefer_right(pairs_map(ks.take(i), vs.take(i))),
            decreases rest.len(),
        {
            let (k, v) = rest.remove(0);
            proof {
                assert((k, v) == orig[i]);
                assert(rest@ =~= orig.skip(i + 1));
                let pk = ks.take(i);
                let pv = vs.take(i);
                assert(ks.take(i + 1) =~= pk.insert(i, ks[i]));
                assert(vs.take(i + 1) =~= pv.insert(i, vs[i]));
                assert(strictly_increasing(pk));
                assert(strictly_increasing(ks.take(i + 1)));
                lemma_pairs_map_insert(pk, pv, i, ks[i], vs[i]);
                assert(old(self)@.union_prefer_right(pairs_map(pk, pv)).insert(k@, v)
                    =~= old(self)@.union_prefer_right(pairs_map(pk, pv).insert(k@, v)));
                i = i + 1;
            }
            self.insert(k, v);
        }
        proof {
            assert(ks.take(i) =~= ks);
            assert(vs.take(i) =~= vs);
        }
    }

    /// The map of the given entries, inserted in order: where a name occurs twice, the later
    /// value wins.
    pub fn from_entries(entries: Vec<(String, V)>) -> (m: Self)
        ensures
            m@ == insert_all(Map::empty(), entry_pairs(entries@)),
            m.ordered(),
    {
        let ghost orig = entries@;
        let ghost pairs = entry_pairs(orig);
        let mut rest = entries;
        let mut m = NameMap::new();
        let ghost mut i: int = 0;
        assert(orig.skip(0) =~= orig);
        assert(pairs.take(0) =~= Seq::<(Seq<char>, V)>::empty());
        while rest.len() > 0
            invariant
                0 <= i <= orig.len(),
                rest@ == orig.skip(i),
                pairs == entry_pairs(orig),
                m@ == insert_all(Map::empty(), pairs.take(i)),
                m.ordered(),
            decreases rest.len(),
        {
            let (k, v) = rest.remove(0);
            proof {
                assert((k, v) == orig[i]);
                assert(rest@ =~= orig.skip(i + 1));
                assert(pairs.take(i + 1).drop_last() =~= pairs.take(i));
                i = i + 1;
            }
            m.insert(k, v);
        }
        assert(pairs.take(i) =~= pairs);
        m
    }

    /// The entries held, in increasing order of their names.
    pub fn into_entries(self) -> (r: Vec<(String, V)>)
        ensures
            entry_keys(r@) == self.keys_in_order(),
            entry_values(r@) == self.values_in_order(),
            self.ordered(),
    {
        proof {
            use_type_invariant(&self);
        }
        self.entries
    }

    /// The values held, in increasing order of their names.
    pub fn into_values(self) -> (r: Vec<V>)
        ensures
            r@ == self.values_in_order(),
            r@.len() == self@.len(),
            self.ordered(),
    {
        proof {
            use_type_invariant(&self);
            self.lemma_len();
        }
        let ghost vs = self.values_in_order();
        let mut rest = self.entries;
        let ghost orig = rest@;
        let ghost mut i: int = 0;
        let mut out: Vec<V> = Vec::new();
        assert(orig.skip(0) =~= orig);
        while rest.len() > 0
            invariant
                0 <= i <= orig.len(),
                rest@ == orig.skip(i),
                vs == entry_values(orig),
                out@ == vs.take(i),
            decreases rest.len(),
        {
            let (_k, v) = rest.remove(0);
            proof {
                assert(rest@ =~= orig.skip(i + 1));
                assert(vs.take(i + 1) =~= vs.take(i).push(v));
                i = i + 1;
            }
            out.push(v);
        }
        assert(vs.take(i) =~= vs);
        out
    }
}

impl<V: Clone> Clone for NameMap<V> {
    /// The same names, each with a clone of its value.
    fn clone(&self) -> (r: Self)
        ensures
            r.keys_in_order() == self.keys_in_order(),
            r.values_in_order().len() == self.values_in_order().len(),
            forall|i: int|
                0 <= i < r.values_in_order().len() ==> cloned::<V>(
                    self.values_in_order()[i],
                    #[trigger] r.values_in_order()[i],
                ),
            r.ordered(),
    {
        proof {
            use_type_invariant(self);
        }
        let n = self.entries.len();
        let mut out: Vec<(String, V)> = Vec::new();
        let mut i: usize = 0;
        while i < n
            invariant
                n == self.entries@.len(),
                i <= n,
                out@.len() == i,
                entry_keys(out@) == entry_keys(self.entries@).take(i as int),
                forall|j: int|
                    0 <= j < i ==> cloned::<V>(
                        self.entries@[j].1,
                        #[trigger] out@[j].1,
                    ),
            decreases n - i,
        {
            let k = self.entries[i].0.clone();
            let v = self.entries[i].1.clone();
            out.push((k, v));
            proof {
                assert(entry_keys(out@) =~= entry_keys(self.entries@).take(i + 1));
            }
            i = i + 1;
        }
        proof {
            assert(entry_keys(out@) =~= entry_keys(self.entries@));
            assert(strictly_increasing(entry_keys(out@)));
        }
        NameMap { entries: out }
    }
}

impl<V> Default for NameMap<V> {
    fn default() -> (m: Self)
        ensures
            m@.dom() == Set::<Seq<char>>::empty(),
            m.keys_in_order().len() == 0,
            m.ordered(),
    {
        Self::new()
    }
}

} // verus!
