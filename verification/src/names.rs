//! Maps keyed by names, kept in the lexicographic order of the names' bytes.

use vstd::prelude::*;
use vstd::utf8::encode_utf8;
use vstd::utf8::encode_utf8_decode_utf8;

verus! {

/// `k` is the first position at which `a` and `b` part ways, and `a` comes
/// first there: either `a` ends at `k` while `b` goes on, or `a[k] < b[k]`.
pub open spec fn parts_before_at(a: Seq<u8>, b: Seq<u8>, k: int) -> bool {
    &&& 0 <= k <= a.len()
    &&& k < b.len()
    &&& forall|j: int| 0 <= j < k ==> a[j] == b[j]
    &&& (k < a.len() ==> a[k] < b[k])
}

/// Strict lexicographic order on byte strings.
pub open spec fn bytes_lt(a: Seq<u8>, b: Seq<u8>) -> bool {
    exists|k: int| parts_before_at(a, b, k)
}

/// Strict order on names: the lexicographic order of their UTF-8 bytes.
pub open spec fn name_lt(a: Seq<char>, b: Seq<char>) -> bool {
    bytes_lt(encode_utf8(a), encode_utf8(b))
}

/// Every name comes strictly before each later one.
pub open spec fn strictly_sorted(names: Seq<Seq<char>>) -> bool {
    forall|i: int, j: int| 0 <= i < j < names.len() ==> name_lt(names[i], names[j])
}

/// The map that pairs `names[i]` with `values[i]`.
pub open spec fn zip_map<X>(names: Seq<Seq<char>>, values: Seq<X>) -> Map<Seq<char>, X> {
    Map::new(|k: Seq<char>| names.contains(k), |k: Seq<char>| values[names.index_of(k)])
}

pub proof fn lemma_bytes_lt_irreflexive(a: Seq<u8>)
    ensures
        !bytes_lt(a, a),
{
}

pub proof fn lemma_bytes_lt_transitive(a: Seq<u8>, b: Seq<u8>, c: Seq<u8>)
    requires
        bytes_lt(a, b),
        bytes_lt(b, c),
    ensures
        bytes_lt(a, c),
{
    let k1 = choose|k: int| parts_before_at(a, b, k);
    let k2 = choose|k: int| parts_before_at(b, c, k);
    let k = if k1 <= k2 { k1 } else { k2 };
    assert(parts_before_at(a, c, k));
}

pub proof fn lemma_bytes_lt_asymmetric(a: Seq<u8>, b: Seq<u8>)
    requires
        bytes_lt(a, b),
    ensures
        !bytes_lt(b, a),
{
    if bytes_lt(b, a) {
        lemma_bytes_lt_transitive(a, b, a);
        lemma_bytes_lt_irreflexive(a);
    }
}

/// Two byte strings that agree on their first `k` bytes are the same, or
/// one of them comes before the other.
proof fn lemma_bytes_scan(a: Seq<u8>, b: Seq<u8>, k: int)
    requires
        0 <= k <= a.len(),
        k <= b.len(),
        forall|j: int| 0 <= j < k ==> a[j] == b[j],
    ensures
        a == b || bytes_lt(a, b) || bytes_lt(b, a),
    decreases a.len() - k,
{
    if k == a.len() && k == b.len() {
        assert(a =~= b);
    } else if k == a.len() {
        assert(parts_before_at(a, b, k));
    } else if k == b.len() {
        assert(parts_before_at(b, a, k));
    } else if a[k] < b[k] {
        assert(parts_before_at(a, b, k));
    } else if b[k] < a[k] {
        assert(parts_before_at(b, a, k));
    } else {
        lemma_bytes_scan(a, b, k + 1);
    }
}

/// Of two different byte strings one comes before the other.
pub proof fn lemma_bytes_lt_total(a: Seq<u8>, b: Seq<u8>)
    ensures
        a == b || bytes_lt(a, b) || bytes_lt(b, a),
{
    lemma_bytes_scan(a, b, 0);
}

/// Names are told apart by their bytes.
pub proof fn lemma_name_bytes_injective(a: Seq<char>, b: Seq<char>)
    requires
        encode_utf8(a) == encode_utf8(b),
    ensures
        a == b,
{
    encode_utf8_decode_utf8(a);
    encode_utf8_decode_utf8(b);
}

/// The order on names is a strict total order.
pub proof fn lemma_name_lt_strict(a: Seq<char>, b: Seq<char>, c: Seq<char>)
    ensures
        !name_lt(a, a),
        name_lt(a, b) ==> !name_lt(b, a),
        name_lt(a, b) && name_lt(b, c) ==> name_lt(a, c),
        a == b || name_lt(a, b) || name_lt(b, a),
{
    lemma_bytes_lt_total(encode_utf8(a), encode_utf8(b));
    if encode_utf8(a) == encode_utf8(b) {
        lemma_name_bytes_injective(a, b);
    }
    lemma_bytes_lt_irreflexive(encode_utf8(a));
    if name_lt(a, b) {
        lemma_bytes_lt_asymmetric(encode_utf8(a), encode_utf8(b));
        if name_lt(b, c) {
            lemma_bytes_lt_transitive(encode_utf8(a), encode_utf8(b), encode_utf8(c));
        }
    }
}

/// In a strictly sorted sequence every name stands at one index only.
pub proof fn lemma_sorted_index_of(names: Seq<Seq<char>>, i: int)
    requires
        strictly_sorted(names),
        0 <= i < names.len(),
    ensures
        names.contains(names[i]),
        names.index_of(names[i]) == i,
{
    let j = names.index_of(names[i]);
    assert(0 <= j < names.len() && names[j] == names[i]);
    lemma_name_lt_strict(names[i], names[i], names[i]);
    if j < i {
        assert(name_lt(names[j], names[i]));
    } else if i < j {
        assert(name_lt(names[i], names[j]));
    }
}

/// Two strictly sorted sequences that hold the same names agree up to
/// every index that both have.
proof fn lemma_sorted_agree_at(a: Seq<Seq<char>>, b: Seq<Seq<char>>, i: int)
    requires
        strictly_sorted(a),
        strictly_sorted(b),
        forall|k: Seq<char>| a.contains(k) <==> b.contains(k),
        0 <= i < a.len(),
        i < b.len(),
    ensures
        a[i] == b[i],
    decreases i,
{
    assert forall|j: int| 0 <= j < i implies a[j] == b[j] by {
        lemma_sorted_agree_at(a, b, j);
    }
    // where the name at `i` of the one stands in the other
    assert(a.contains(a[i]));
    let ja = b.index_of(a[i]);
    assert(b.contains(b[i]));
    let jb = a.index_of(b[i]);
    assert(0 <= ja < b.len() && b[ja] == a[i]);
    assert(0 <= jb < a.len() && a[jb] == b[i]);
    lemma_name_lt_strict(a[i], b[i], a[i]);
    lemma_name_lt_strict(b[i], a[i], b[i]);
    if ja < i {
        assert(name_lt(a[ja], a[i]));
    } else if ja > i {
        assert(name_lt(b[i], b[ja]));
        if jb < i {
            assert(name_lt(b[jb], b[i]));
        } else if jb > i {
            assert(name_lt(a[i], a[jb]));
        }
    }
}

/// The order of the names is fixed by the names: two strictly sorted
/// sequences that hold the same names are the same sequence.
pub proof fn lemma_same_names_same_order(a: Seq<Seq<char>>, b: Seq<Seq<char>>)
    requires
        strictly_sorted(a),
        strictly_sorted(b),
        forall|k: Seq<char>| a.contains(k) <==> b.contains(k),
    ensures
        a == b,
{
    if a.len() < b.len() {
        let extra = b[a.len() as int];
        assert(b.contains(extra));
        let j = a.index_of(extra);
        assert(0 <= j < a.len() && a[j] == extra);
        lemma_sorted_agree_at(a, b, j);
        assert(name_lt(b[j], b[a.len() as int]));
        lemma_name_lt_strict(extra, extra, extra);
    } else if b.len() < a.len() {
        let extra = a[b.len() as int];
        assert(a.contains(extra));
        let j = b.index_of(extra);
        assert(0 <= j < b.len() && b[j] == extra);
        lemma_sorted_agree_at(a, b, j);
        assert(name_lt(a[j], a[b.len() as int]));
        lemma_name_lt_strict(extra, extra, extra);
    }
    assert forall|i: int| 0 <= i < a.len() implies a[i] == b[i] by {
        lemma_sorted_agree_at(a, b, i);
    }
    assert(a =~= b);
}

/// What a strictly sorted list of entries maps the name at index `i` to.
pub proof fn lemma_zip_map_at<X>(names: Seq<Seq<char>>, values: Seq<X>, i: int)
    requires
        strictly_sorted(names),
        0 <= i < names.len(),
    ensures
        zip_map(names, values).contains_key(names[i]),
        zip_map(names, values)[names[i]] == values[i],
{
    lemma_sorted_index_of(names, i);
}

/// Replacing the value at index `i` replaces what the name there is mapped to.
pub proof fn lemma_zip_map_update<X>(names: Seq<Seq<char>>, values: Seq<X>, i: int, v: X)
    requires
        strictly_sorted(names),
        names.len() == values.len(),
        0 <= i < names.len(),
    ensures
        zip_map(names, values.update(i, v)) == zip_map(names, values).insert(names[i], v),
{
    let after = zip_map(names, values.update(i, v));
    let expected = zip_map(names, values).insert(names[i], v);
    assert forall|k: Seq<char>| after.contains_key(k) <==> expected.contains_key(k) by {}
    assert forall|k: Seq<char>| after.contains_key(k) implies after[k] == expected[k] by {
        let j = names.index_of(k);
        lemma_sorted_index_of(names, j);
        lemma_sorted_index_of(names, i);
    }
    assert(after =~= expected);
}

/// Putting a new name in at its place in the order keeps the order and
/// adds one entry to the map.
pub proof fn lemma_zip_map_insert<X>(
    names: Seq<Seq<char>>,
    values: Seq<X>,
    i: int,
    k: Seq<char>,
    v: X,
)
    requires
        strictly_sorted(names),
        names.len() == values.len(),
        0 <= i <= names.len(),
        forall|j: int| 0 <= j < i ==> name_lt(#[trigger] names[j], k),
        forall|j: int| i <= j < names.len() ==> name_lt(k, #[trigger] names[j]),
    ensures
        strictly_sorted(names.insert(i, k)),
        zip_map(names.insert(i, k), values.insert(i, v)) == zip_map(names, values).insert(k, v),
{
    let names2 = names.insert(i, k);
    let values2 = values.insert(i, v);
    assert forall|a: int, b: int| 0 <= a < b < names2.len() implies name_lt(
        names2[a],
        names2[b],
    ) by {
        if a < i && b > i {
            assert(names2[a] == names[a]);
            assert(names2[b] == names[b - 1]);
        }
    }
    let after = zip_map(names2, values2);
    let expected = zip_map(names, values).insert(k, v);
    assert forall|n: Seq<char>| after.contains_key(n) <==> expected.contains_key(n) by {
        if after.contains_key(n) {
            let j = names2.index_of(n);
            if j < i {
                assert(names[j] == n);
            } else if j > i {
                assert(names[j - 1] == n);
            }
        }
        if expected.contains_key(n) {
            if n == k {
                assert(names2[i] == n);
            } else {
                let j = names.index_of(n);
                if j < i {
                    assert(names2[j] == n);
                } else {
                    assert(names2[j + 1] == n);
                }
            }
        }
    }
    assert forall|n: Seq<char>| after.contains_key(n) implies after[n] == expected[n] by {
        let j = names2.index_of(n);
        lemma_sorted_index_of(names2, j);
        if j < i {
            assert(names[j] == n);
            lemma_sorted_index_of(names, j);
            lemma_name_order_exclusive(n, k);
        } else if j > i {
            assert(names[j - 1] == n);
            lemma_sorted_index_of(names, j - 1);
            lemma_name_order_exclusive(k, n);
        }
    }
    assert(after =~= expected);
}

/// Taking the entry at index `i` out keeps the order and removes its name
/// from the map.
pub proof fn lemma_zip_map_remove<X>(names: Seq<Seq<char>>, values: Seq<X>, i: int)
    requires
        strictly_sorted(names),
        names.len() == values.len(),
        0 <= i < names.len(),
    ensures
        strictly_sorted(names.remove(i)),
        zip_map(names.remove(i), values.remove(i)) == zip_map(names, values).remove(names[i]),
{
    let names2 = names.remove(i);
    let values2 = values.remove(i);
    assert forall|a: int, b: int| 0 <= a < b < names2.len() implies name_lt(
        names2[a],
        names2[b],
    ) by {
        let a1 = if a < i { a } else { a + 1 };
        let b1 = if b < i { b } else { b + 1 };
        assert(names2[a] == names[a1] && names2[b] == names[b1]);
    }
    let after = zip_map(names2, values2);
    let expected = zip_map(names, values).remove(names[i]);
    assert forall|n: Seq<char>| after.contains_key(n) <==> expected.contains_key(n) by {
        if after.contains_key(n) {
            let j = names2.index_of(n);
            let j1 = if j < i { j } else { j + 1 };
            assert(names[j1] == n);
            lemma_sorted_index_of(names, j1);
            lemma_sorted_index_of(names, i);
        }
        if expected.contains_key(n) {
            let j = names.index_of(n);
            if j < i {
                assert(names2[j] == n);
            } else {
                assert(names2[j - 1] == n);
            }
        }
    }
    assert forall|n: Seq<char>| after.contains_key(n) implies after[n] == expected[n] by {
        let j = names2.index_of(n);
        lemma_sorted_index_of(names2, j);
        let j1 = if j < i { j } else { j + 1 };
        assert(names[j1] == n);
        lemma_sorted_index_of(names, j1);
    }
    assert(after =~= expected);
}

/// How two names stand to each other in the order of names.
#[derive(Clone, Copy, Debug, PartialEq, Eq, Structural)]
pub enum NameOrder {
    Before,
    Same,
    After,
}

/// Of "comes before", "is the same" and "comes after" at most one holds.
pub proof fn lemma_name_order_exclusive(a: Seq<char>, b: Seq<char>)
    ensures
        name_lt(a, b) ==> a != b && !name_lt(b, a),
        name_lt(b, a) ==> a != b,
{
    lemma_name_lt_strict(a, b, a);
    lemma_name_lt_strict(b, a, b);
}

/// Compares two names by their bytes.
pub fn name_order(a: &str, b: &str) -> (r: NameOrder)
    ensures
        r == NameOrder::Before <==> name_lt(a@, b@),
        r == NameOrder::Same <==> a@ == b@,
        r == NameOrder::After <==> name_lt(b@, a@),
{
    let x = a.as_bytes();
    let y = b.as_bytes();
    proof {
        lemma_name_order_exclusive(a@, b@);
    }
    let mut i: usize = 0;
    while i < x.len() && i < y.len()
        invariant
            i <= x.len(),
            i <= y.len(),
            x@ == encode_utf8(a@),
            y@ == encode_utf8(b@),
            name_lt(a@, b@) ==> a@ != b@ && !name_lt(b@, a@),
            name_lt(b@, a@) ==> a@ != b@,
            forall|j: int| 0 <= j < i ==> x@[j] == y@[j],
        decreases x.len() - i,
    {
        if x[i] < y[i] {
            assert(parts_before_at(x@, y@, i as int));
            return NameOrder::Before;
        }
        if y[i] < x[i] {
            assert(parts_before_at(y@, x@, i as int));
            return NameOrder::After;
        }
        i += 1;
    }
    if x.len() < y.len() {
        assert(parts_before_at(x@, y@, i as int));
        NameOrder::Before
    } else if y.len() < x.len() {
        assert(parts_before_at(y@, x@, i as int));
        NameOrder::After
    } else {
        assert(x@ =~= y@);
        proof {
            lemma_name_bytes_injective(a@, b@);
        }
        NameOrder::Same
    }
}

/// The names of a list of entries, in the order of the list.
spec fn names_of<V: View>(entries: Seq<(String, V)>) -> Seq<Seq<char>> {
    Seq::new(entries.len(), |i: int| entries[i].0@)
}

/// The values of a list of entries, in the order of the list.
spec fn values_of<V: View>(entries: Seq<(String, V)>) -> Seq<V::V> {
    Seq::new(entries.len(), |i: int| entries[i].1@)
}

/// A map from names to values that is walked in the order of the names.
#[derive(Debug)]
pub struct NamedMap<V: View> {
    entries: Vec<(String, V)>,
}

impl<V: View> View for NamedMap<V> {
    type V = Map<Seq<char>, V::V>;

    open spec fn view(&self) -> Map<Seq<char>, V::V> {
        zip_map(self.names(), self.values())
    }
}

impl<V: View> NamedMap<V> {
    /// The names, in the order in which the map is walked.
    pub closed spec fn names(&self) -> Seq<Seq<char>> {
        names_of(self.entries@)
    }

    /// The values, each at the index of its name.
    pub closed spec fn values(&self) -> Seq<V::V> {
        values_of(self.entries@)
    }

    /// The names are strictly sorted, and there is one value for each.
    #[verifier::type_invariant]
    pub open spec fn wf(&self) -> bool {
        &&& self.names().len() == self.values().len()
        &&& strictly_sorted(self.names())
    }

    /// A name is a key of the map exactly if it is among the names, and the
    /// name at an index is mapped to the value at that index.
    pub proof fn lemma_view(&self)
        requires
            self.wf(),
        ensures
            forall|k: Seq<char>| self@.contains_key(k) <==> self.names().contains(k),
            forall|i: int|
                0 <= i < self.names().len() ==> self@.contains_key(#[trigger] self.names()[i])
                    && self@[self.names()[i]] == self.values()[i],
    {
        assert forall|i: int| 0 <= i < self.names().len() implies self@.contains_key(
            #[trigger] self.names()[i],
        ) && self@[self.names()[i]] == self.values()[i] by {
            lemma_zip_map_at(self.names(), self.values(), i);
        }
    }

    /// Maps that hold the same are walked alike: the order of the entries
    /// is fixed by what the map holds, not by how it came about.
    pub proof fn lemma_walk_is_canonical(&self, other: &NamedMap<V>)
        requires
            self.wf(),
            other.wf(),
            self@ == other@,
        ensures
            self.names() == other.names(),
            self.values() == other.values(),
    {
        self.lemma_view();
        other.lemma_view();
        assert forall|k: Seq<char>| self.names().contains(k) <==> other.names().contains(k) by {
            assert(self@.contains_key(k) == other@.contains_key(k));
        }
        lemma_same_names_same_order(self.names(), other.names());
        assert forall|i: int| 0 <= i < self.values().len() implies self.values()[i]
            == other.values()[i] by {
            assert(self@[self.names()[i]] == self.values()[i]);
            assert(other@[other.names()[i]] == other.values()[i]);
        }
        assert(self.values() =~= other.values());
    }

    /// The map of the first `i` entries in the order of the names.
    pub open spec fn prefix(&self, i: int) -> Map<Seq<char>, V::V> {
        zip_map(self.names().take(i), self.values().take(i))
    }

    /// The map of no entries is empty, and the map of all entries is the
    /// whole map.
    pub proof fn lemma_prefix_ends(&self)
        requires
            self.wf(),
        ensures
            self.prefix(0) == Map::<Seq<char>, V::V>::empty(),
            self.prefix(self.names().len() as int) == self@,
    {
        assert(self.prefix(0) =~= Map::<Seq<char>, V::V>::empty());
        assert(self.names().take(self.names().len() as int) =~= self.names());
        assert(self.values().take(self.names().len() as int) =~= self.values());
    }

    /// The map of the first `i + 1` entries is the map of the first `i`
    /// with the entry at index `i` put in, whose name is new to it.
    pub proof fn lemma_prefix_step(&self, i: int)
        requires
            self.wf(),
            0 <= i < self.names().len(),
        ensures
            self.prefix(i + 1) == self.prefix(i).insert(self.names()[i], self.values()[i]),
            !self.prefix(i).contains_key(self.names()[i]),
            self@.contains_key(self.names()[i]),
            self@[self.names()[i]] == self.values()[i],
    {
        let names = self.names().take(i);
        let values = self.values().take(i);
        let k = self.names()[i];
        assert forall|j: int| 0 <= j < i implies name_lt(#[trigger] names[j], k) by {
            assert(names[j] == self.names()[j]);
        }
        assert forall|a: int, b: int| 0 <= a < b < names.len() implies name_lt(
            names[a],
            names[b],
        ) by {
            assert(names[a] == self.names()[a] && names[b] == self.names()[b]);
        }
        lemma_zip_map_insert(names, values, i, k, self.values()[i]);
        assert(names.insert(i, k) =~= self.names().take(i + 1));
        assert(values.insert(i, self.values()[i]) =~= self.values().take(i + 1));
        if self.prefix(i).contains_key(k) {
            let j = names.index_of(k);
            assert(names[j] == k);
            lemma_name_lt_strict(k, k, k);
        }
        lemma_zip_map_at(self.names(), self.values(), i);
    }

    /// A map without names has no keys.
    pub proof fn len_is_dom(&self)
        requires
            self.names().len() == 0,
        ensures
            self@ == Map::<Seq<char>, V::V>::empty(),
    {
        assert(self@ =~= Map::<Seq<char>, V::V>::empty());
    }

    /// The empty map.
    pub fn new() -> (m: Self)
        ensures
            m.names() == Seq::<Seq<char>>::empty(),
            m.values() == Seq::<V::V>::empty(),
            m@ == Map::<Seq<char>, V::V>::empty(),
    {
        let m = NamedMap { entries: Vec::new() };
        assert(m.names() =~= Seq::<Seq<char>>::empty());
        assert(m.values() =~= Seq::<V::V>::empty());
        assert(m@ =~= Map::<Seq<char>, V::V>::empty());
        m
    }

    /// The number of entries.
    pub fn len(&self) -> (n: usize)
        ensures
            n == self.names().len(),
            n == self.values().len(),
            self.wf(),
    {
        proof {
            use_type_invariant(self);
        }
        self.entries.len()
    }

    /// The name at index `i` in the order of the names.
    pub fn name_at(&self, i: usize) -> (r: &String)
        requires
            i < self.names().len(),
        ensures
            r@ == self.names()[i as int],
    {
        &self.entries[i].0
    }

    /// The value at index `i` in the order of the names.
    pub fn value_at(&self, i: usize) -> (r: &V)
        requires
            i < self.names().len(),
        ensures
            r@ == self.values()[i as int],
            self@.contains_key(self.names()[i as int]),
            r@ == self@[self.names()[i as int]],
    {
        proof {
            use_type_invariant(self);
            lemma_zip_map_at(self.names(), self.values(), i as int);
        }
        &self.entries[i].1
    }

    /// The index at which `name` stands, or else the index at which it
    /// would have to be put in.
    fn search(&self, name: &str) -> (r: (usize, bool))
        ensures
            r.0 <= self.names().len(),
            forall|j: int| 0 <= j < r.0 ==> name_lt(#[trigger] self.names()[j], name@),
            r.1 ==> r.0 < self.names().len() && self.names()[r.0 as int] == name@,
            !r.1 ==> forall|j: int|
                r.0 <= j < self.names().len() ==> name_lt(name@, #[trigger] self.names()[j]),
            r.1 == self.names().contains(name@),
    {
        proof {
            use_type_invariant(self);
        }
        let mut i: usize = 0;
        while i < self.entries.len()
            invariant
                i <= self.entries.len(),
                self.entries.len() == self.names().len(),
                strictly_sorted(self.names()),
                forall|j: int| 0 <= j < i ==> name_lt(#[trigger] self.names()[j], name@),
            decreases self.entries.len() - i,
        {
            match name_order(self.entries[i].0.as_str(), name) {
                NameOrder::Before => {},
                NameOrder::Same => {
                    return (i, true);
                },
                NameOrder::After => {
                    proof {
                        let names = self.names();
                        assert forall|j: int| i <= j < names.len() implies name_lt(
                            name@,
                            #[trigger] names[j],
                        ) by {
                            if i < j {
                                lemma_name_lt_strict(name@, names[i as int], names[j]);
                            }
                        }
                        assert forall|j: int| 0 <= j < names.len() implies names[j] != name@ by {
                            lemma_name_lt_strict(name@, name@, name@);
                        }
                    }
                    return (i, false);
                },
            }
            i += 1;
        }
        proof {
            let names = self.names();
            assert forall|j: int| 0 <= j < names.len() implies names[j] != name@ by {
                lemma_name_lt_strict(name@, name@, name@);
            }
        }
        (i, false)
    }

    /// The index of `name` in the order of the names, if it is a key.
    pub fn position(&self, name: &str) -> (r: Option<usize>)
        ensures
            match r {
                Some(i) => i < self.names().len() && self.names()[i as int] == name@,
                None => !self.names().contains(name@),
            },
            r is Some <==> self@.contains_key(name@),
    {
        let (i, found) = self.search(name);
        if found {
            Some(i)
        } else {
            None
        }
    }

    /// Whether `name` is a key of the map.
    pub fn contains_key(&self, name: &str) -> (b: bool)
        ensures
            b == self@.contains_key(name@),
    {
        let (_, found) = self.search(name);
        found
    }

    /// The value that `name` is mapped to, if it is a key.
    pub fn get(&self, name: &str) -> (r: Option<&V>)
        ensures
            match r {
                Some(v) => self@.contains_key(name@) && v@ == self@[name@],
                None => !self@.contains_key(name@),
            },
    {
        let (i, found) = self.search(name);
        if found {
            proof {
                use_type_invariant(self);
                lemma_zip_map_at(self.names(), self.values(), i as int);
            }
            Some(&self.entries[i].1)
        } else {
            None
        }
    }

    /// Maps `name` to `value`, and returns the value it was mapped to before.
    pub fn insert(&mut self, name: String, value: V) -> (r: Option<V>)
        ensures
            final(self)@ == old(self)@.insert(name@, value@),
            match r {
                Some(v) => old(self)@.contains_key(name@) && v@ == old(self)@[name@],
                None => !old(self)@.contains_key(name@),
            },
    {
        let (i, found) = self.search(name.as_str());
        proof {
            use_type_invariant(&*self);
        }
        let ghost names = self.names();
        let ghost values = self.values();
        let ghost key = name@;
        let ghost val = value@;
        let mut entries: Vec<(String, V)> = Vec::new();
        std::mem::swap(&mut entries, &mut self.entries);
        let r = if found {
            let previous = entries.remove(i);
            entries.insert(i, (name, value));
            proof {
                lemma_zip_map_update(names, values, i as int, val);
                lemma_zip_map_at(names, values, i as int);
            }
            Some(previous.1)
        } else {
            entries.insert(i, (name, value));
            proof {
                lemma_zip_map_insert(names, values, i as int, key, val);
            }
            None
        };
        proof {
            if found {
                assert(names_of(entries@) =~= names);
                assert(values_of(entries@) =~= values.update(i as int, val));
            } else {
                assert(names_of(entries@) =~= names.insert(i as int, key));
                assert(values_of(entries@) =~= values.insert(i as int, val));
            }
        }
        self.entries = entries;
        r
    }

    /// Takes `name` out of the map, and returns the value it was mapped to.
    pub fn remove(&mut self, name: &str) -> (r: Option<V>)
        ensures
            final(self)@ == old(self)@.remove(name@),
            match r {
                Some(v) => old(self)@.contains_key(name@) && v@ == old(self)@[name@],
                None => !old(self)@.contains_key(name@),
            },
    {
        let (i, found) = self.search(name);
        proof {
            use_type_invariant(&*self);
        }
        if !found {
            assert(self@.remove(name@) =~= self@);
            return None;
        }
        let ghost names = self.names();
        let ghost values = self.values();
        let mut entries: Vec<(String, V)> = Vec::new();
        std::mem::swap(&mut entries, &mut self.entries);
        let previous = entries.remove(i);
        proof {
            lemma_zip_map_remove(names, values, i as int);
            lemma_zip_map_at(names, values, i as int);
            assert(names_of(entries@) =~= names.remove(i as int));
            assert(values_of(entries@) =~= values.remove(i as int));
        }
        self.entries = entries;
        Some(previous.1)
    }

    /// Takes out the entry whose name is last in the order of the names.
    pub fn pop_last(&mut self) -> (r: Option<(String, V)>)
        ensures
            match r {
                Some(entry) => {
                    &&& old(self).names().len() > 0
                    &&& entry.0@ == old(self).names().last()
                    &&& entry.1@ == old(self).values().last()
                    &&& final(self).names() == old(self).names().drop_last()
                    &&& final(self).values() == old(self).values().drop_last()
                    &&& old(self)@.contains_key(entry.0@)
                    &&& old(self)@[entry.0@] == entry.1@
                    &&& final(self)@ == old(self)@.remove(entry.0@)
                },
                None => old(self).names().len() == 0 && final(self)@ == old(self)@,
            },
    {
        proof {
            use_type_invariant(&*self);
        }
        let ghost names = self.names();
        let ghost values = self.values();
        let mut entries: Vec<(String, V)> = Vec::new();
        std::mem::swap(&mut entries, &mut self.entries);
        let r = entries.pop();
        proof {
            if r is Some {
                let last = names.len() - 1;
                lemma_zip_map_remove(names, values, last);
                lemma_zip_map_at(names, values, last);
                assert(names.remove(last) =~= names.drop_last());
                assert(values.remove(last) =~= values.drop_last());
                assert(names_of(entries@) =~= names.drop_last());
                assert(values_of(entries@) =~= values.drop_last());
            } else {
                assert(names_of(entries@) =~= names);
                assert(values_of(entries@) =~= values);
            }
        }
        self.entries = entries;
        r
    }

    /// Whether some name is a key of this map and none of `other`.
    pub fn has_key_outside<W: View>(&self, other: &NamedMap<W>) -> (r: bool)
        ensures
            r == !self@.dom().subset_of(other@.dom()),
    {
        let n = self.len();
        let mut i: usize = 0;
        while i < n
            invariant
                i <= n,
                n == self.names().len(),
                self.wf(),
                forall|j: int| 0 <= j < i ==> other@.contains_key(#[trigger] self.names()[j]),
            decreases n - i,
        {
            if !other.contains_key(self.name_at(i).as_str()) {
                proof {
                    self.lemma_view();
                    assert(self@.dom().contains(self.names()[i as int]));
                }
                return true;
            }
            i += 1;
        }
        proof {
            self.lemma_view();
            assert forall|k: Seq<char>| self@.dom().contains(k) implies other@.dom().contains(
                k,
            ) by {
                let j = self.names().index_of(k);
                assert(self.names()[j] == k);
            }
        }
        false
    }

    /// Whether some name is a key of both this map and `other`.
    pub fn shares_key_with<W: View>(&self, other: &NamedMap<W>) -> (r: bool)
        ensures
            r == !self@.dom().disjoint(other@.dom()),
    {
        let n = self.len();
        let mut i: usize = 0;
        while i < n
            invariant
                i <= n,
                n == self.names().len(),
                self.wf(),
                forall|j: int| 0 <= j < i ==> !other@.contains_key(#[trigger] self.names()[j]),
            decreases n - i,
        {
            if other.contains_key(self.name_at(i).as_str()) {
                proof {
                    self.lemma_view();
                    assert(self@.dom().contains(self.names()[i as int]));
                    assert(other@.dom().contains(self.names()[i as int]));
                }
                return true;
            }
            i += 1;
        }
        proof {
            self.lemma_view();
            assert forall|k: Seq<char>| self@.dom().contains(k) implies !other@.dom().contains(
                k,
            ) by {
                let j = self.names().index_of(k);
                assert(self.names()[j] == k);
            }
        }
        false
    }
}

} // verus!
