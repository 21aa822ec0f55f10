//! Three-party secret sharing of field elements: additive and replicated
//! shares, both also in a seeded form in which a share that is the output of
//! a pseudorandom stream is stored as the seed of that stream.

use crate::field::draw_from_seed;
use crate::field::fadd;
use crate::field::field_add;
use crate::field::field_sub;
use crate::field::fsub;
use crate::field::modulus;
use crate::field::random_field_element;
use crate::field::random_seed;
use crate::field::seeded_draw;
use crate::field::FieldElement;
use crate::field::RngType;
use vstd::arithmetic::div_mod::lemma_mod_sub_multiples_vanish;
use vstd::arithmetic::div_mod::lemma_small_mod;
use vstd::prelude::*;

verus! {

/// The part of a secret `v` that is left when the masks `b` and `c` are
/// taken off.
pub open spec fn masked(v: nat, b: nat, c: nat) -> nat {
    fsub(fsub(v, b), c)
}

/// The secret that three additive parts stand for.
pub open spec fn combined(a: nat, b: nat, c: nat) -> nat {
    fadd(fadd(a, b), c)
}

/// The position in the stream of `seed` after `n` draws from its start.
pub open spec fn stream_position(seed: Seq<u8>, n: nat) -> u128
    decreases n,
{
    if n == 0 {
        0
    } else {
        seeded_draw(seed, stream_position(seed, (n - 1) as nat)).1
    }
}

/// The value of the field element that draw number `i` yields from the
/// stream of `seed`.
pub open spec fn stream_value(seed: Seq<u8>, i: nat) -> nat {
    seeded_draw(seed, stream_position(seed, i)).0
}

/// The values of the first `n` elements of the stream of `seed`.
pub open spec fn seed_stream(seed: Seq<u8>, n: nat) -> Seq<nat> {
    Seq::new(n, |i: int| stream_value(seed, i as nat))
}

/// The values of a sequence of field elements.
pub open spec fn values(s: Seq<FieldElement>) -> Seq<nat> {
    Seq::new(s.len(), |i: int| s[i].value())
}

/// Every element of the sequence is a canonical one.
pub open spec fn all_wf(s: Seq<FieldElement>) -> bool {
    forall|i: int| 0 <= i < s.len() ==> (#[trigger] s[i]).wf()
}

/// A number below twice the modulus is reduced by taking the modulus off
/// at most once.
pub proof fn lemma_reduce_once(x: nat)
    requires
        x < 2 * modulus(),
    ensures
        x % modulus() == if x < modulus() {
            x
        } else {
            (x - modulus()) as nat
        },
{
    let m = modulus();
    if x < m {
        lemma_small_mod(x, m);
    } else {
        lemma_small_mod((x - m) as nat, m);
        lemma_mod_sub_multiples_vanish(x as int, m as int);
    }
}

/// Taking the masks off a secret and putting the three parts together again
/// gives the secret back.
pub proof fn lemma_masked_combines(v: nat, b: nat, c: nat)
    requires
        v < modulus(),
        b < modulus(),
        c < modulus(),
    ensures
        masked(v, b, c) < modulus(),
        combined(masked(v, b, c), b, c) == v,
{
    let m = modulus();
    lemma_small_mod(b, m);
    lemma_small_mod(c, m);
    // what is left when `b` is taken off
    lemma_reduce_once((v + m - b) as nat);
    let d = fsub(v, b);
    assert(d == if v >= b { v - b } else { v + m - b });
    // what is left when `c` is taken off as well
    lemma_reduce_once((d + m - c) as nat);
    let a = fsub(d, c);
    assert(a == if d >= c { d - c } else { d + m - c });
    // putting `b` back, and then `c`
    lemma_reduce_once(a + b);
    let s = fadd(a, b);
    assert(s == if a + b >= m { a + b - m } else { (a + b) as int });
    lemma_reduce_once(s + c);
}

/// A replicated share of one field element: the party's own additive part
/// and that of the party before it.
#[derive(Clone, Copy, Debug, PartialEq, Eq, Structural)]
pub struct Rep3PrimeFieldShare {
    pub a: FieldElement,
    pub b: FieldElement,
}

/// The three parts `a`, `b`, `c` add up to `v`, `a` being what is left of `v`
/// when `b` and `c` are taken off.
pub open spec fn is_additive_triple(
    v: FieldElement,
    a: FieldElement,
    b: FieldElement,
    c: FieldElement,
) -> bool {
    a.value() == masked(v.value(), b.value(), c.value())
}

/// The replicated shares of the three parties that belong to the additive
/// parts `a`, `b`, `c`.
pub open spec fn replicated_triple(a: FieldElement, b: FieldElement, c: FieldElement) -> Seq<
    Rep3PrimeFieldShare,
> {
    seq![
        Rep3PrimeFieldShare { a: a, b: c },
        Rep3PrimeFieldShare { a: b, b: a },
        Rep3PrimeFieldShare { a: c, b: b },
    ]
}

/// What is left of `val` when the masks `b` and `c` are taken off.
pub fn mask_field_element(val: FieldElement, b: FieldElement, c: FieldElement) -> (a:
    FieldElement)
    ensures
        is_additive_triple(val, a, b, c),
        a.wf(),
{
    proof {
        use_type_invariant(&val);
        use_type_invariant(&b);
        use_type_invariant(&c);
    }
    field_sub(field_sub(val, b), c)
}

/// The additive shares of `val` under the masks `b` and `c`.
pub fn additive_shares_of(val: FieldElement, b: FieldElement, c: FieldElement) -> (r: [FieldElement;
    3])
    ensures
        is_additive_triple(val, r[0], b, c),
        r[1] == b,
        r[2] == c,
{
    let a = mask_field_element(val, b, c);
    [a, b, c]
}

/// The replicated shares of `val` under the masks `b` and `c`.
pub fn replicated_shares_of(val: FieldElement, b: FieldElement, c: FieldElement) -> (r: [Rep3PrimeFieldShare;
    3])
    ensures
        is_additive_triple(val, r[0].a, b, c),
        r@ == replicated_triple(r[0].a, b, c),
{
    let a = mask_field_element(val, b, c);
    let r = [
        Rep3PrimeFieldShare { a: a, b: c },
        Rep3PrimeFieldShare { a: b, b: a },
        Rep3PrimeFieldShare { a: c, b: b },
    ];
    assert(r@ =~= replicated_triple(a, b, c));
    r
}

/// The secret that three additive shares stand for.
pub fn combine_additive(a: FieldElement, b: FieldElement, c: FieldElement) -> (v: FieldElement)
    ensures
        v.value() == combined(a.value(), b.value(), c.value()),
        v.wf(),
{
    proof {
        use_type_invariant(&a);
        use_type_invariant(&b);
        use_type_invariant(&c);
    }
    field_add(field_add(a, b), c)
}

/// The secret that the replicated shares of the three parties stand for.
pub fn combine_field_element(
    share1: Rep3PrimeFieldShare,
    share2: Rep3PrimeFieldShare,
    share3: Rep3PrimeFieldShare,
) -> (v: FieldElement)
    ensures
        v.value() == combined(share1.a.value(), share2.a.value(), share3.a.value()),
        v.wf(),
{
    combine_additive(share1.a, share2.a, share3.a)
}

/// Sharing a canonical element and combining the shares gives the element
/// back, whatever the masks.
pub proof fn lemma_share_then_combine(
    val: FieldElement,
    a: FieldElement,
    b: FieldElement,
    c: FieldElement,
    recovered: FieldElement,
)
    requires
        val.wf(),
        b.wf(),
        c.wf(),
        is_additive_triple(val, a, b, c),
        recovered.value() == combined(a.value(), b.value(), c.value()),
    ensures
        recovered == val,
{
    lemma_masked_combines(val.value(), b.value(), c.value());
    val.lemma_value(recovered);
}

/// `s0`, `s1`, `s2` are the replicated shares of the three parties for `v`.
pub open spec fn is_replicated_sharing_of(
    v: FieldElement,
    s0: Rep3PrimeFieldShare,
    s1: Rep3PrimeFieldShare,
    s2: Rep3PrimeFieldShare,
) -> bool {
    &&& is_additive_triple(v, s0.a, s1.a, s2.a)
    &&& s0.a.wf() && s1.a.wf() && s2.a.wf()
    &&& s0.b == s2.a
    &&& s1.b == s0.a
    &&& s2.b == s1.a
}

/// Element by element, `s0`, `s1`, `s2` are replicated shares of `vals`.
pub open spec fn is_replicated_sharing(
    vals: Seq<FieldElement>,
    s0: Seq<Rep3PrimeFieldShare>,
    s1: Seq<Rep3PrimeFieldShare>,
    s2: Seq<Rep3PrimeFieldShare>,
) -> bool {
    &&& s0.len() == vals.len()
    &&& s1.len() == vals.len()
    &&& s2.len() == vals.len()
    &&& forall|i: int|
        0 <= i < vals.len() ==> #[trigger] is_replicated_sharing_of(vals[i], s0[i], s1[i], s2[i])
}

/// `a`, `b`, `c` are canonical additive shares of `v`.
pub open spec fn is_additive_sharing_of(
    v: FieldElement,
    a: FieldElement,
    b: FieldElement,
    c: FieldElement,
) -> bool {
    &&& is_additive_triple(v, a, b, c)
    &&& a.wf() && b.wf() && c.wf()
}

/// Element by element, `a`, `b`, `c` are additive shares of `vals`.
pub open spec fn is_additive_sharing(
    vals: Seq<FieldElement>,
    a: Seq<FieldElement>,
    b: Seq<FieldElement>,
    c: Seq<FieldElement>,
) -> bool {
    &&& a.len() == vals.len()
    &&& b.len() == vals.len()
    &&& c.len() == vals.len()
    &&& forall|i: int|
        0 <= i < vals.len() ==> #[trigger] is_additive_sharing_of(vals[i], a[i], b[i], c[i])
}

/// `a` holds what is left of `vals` when the streams of the seeds `seed_b`
/// and `seed_c` are taken off.
pub open spec fn is_seeded_part(
    vals: Seq<FieldElement>,
    seed_b: Seq<u8>,
    seed_c: Seq<u8>,
    a: Seq<FieldElement>,
) -> bool {
    &&& a.len() == vals.len()
    &&& forall|i: int|
        0 <= i < vals.len() ==> (#[trigger] a[i]).wf() && a[i].value() == masked(
            vals[i].value(),
            stream_value(seed_b, i as nat),
            stream_value(seed_c, i as nat),
        )
}

/// Where a value is unknown, none of the parties has a share; where it is
/// known, the three hold replicated shares of it.
pub open spec fn is_maybe_replicated_sharing(
    vals: Seq<Option<FieldElement>>,
    s0: Seq<Option<Rep3PrimeFieldShare>>,
    s1: Seq<Option<Rep3PrimeFieldShare>>,
    s2: Seq<Option<Rep3PrimeFieldShare>>,
) -> bool {
    &&& s0.len() == vals.len()
    &&& s1.len() == vals.len()
    &&& s2.len() == vals.len()
    &&& forall|i: int|
        0 <= i < vals.len() ==> match #[trigger] vals[i] {
            Some(v) => s0[i] is Some && s1[i] is Some && s2[i] is Some
                && is_replicated_sharing_of(v, s0[i]->0, s1[i]->0, s2[i]->0),
            None => s0[i] is None && s1[i] is None && s2[i] is None,
        }
}

/// Where a value is unknown, none of the parties has a share; where it is
/// known, the three hold additive shares of it.
pub open spec fn is_maybe_additive_sharing(
    vals: Seq<Option<FieldElement>>,
    a: Seq<Option<FieldElement>>,
    b: Seq<Option<FieldElement>>,
    c: Seq<Option<FieldElement>>,
) -> bool {
    &&& a.len() == vals.len()
    &&& b.len() == vals.len()
    &&& c.len() == vals.len()
    &&& forall|i: int|
        0 <= i < vals.len() ==> match #[trigger] vals[i] {
            Some(v) => a[i] is Some && b[i] is Some && c[i] is Some && is_additive_sharing_of(
                v,
                a[i]->0,
                b[i]->0,
                c[i]->0,
            ),
            None => a[i] is None && b[i] is None && c[i] is None,
        }
}

/// A vector of field elements, or the seed of the stream that yields it.
#[derive(Debug)]
pub enum SeededType {
    Shares(Vec<FieldElement>),
    Seed([u8; 32]),
}

/// What a [`SeededType`] holds.
pub enum SeededView {
    Shares(Seq<FieldElement>),
    Seed(Seq<u8>),
}

impl View for SeededType {
    type V = SeededView;

    open spec fn view(&self) -> SeededView {
        match self {
            SeededType::Shares(v) => SeededView::Shares(v@),
            SeededType::Seed(s) => SeededView::Seed(s@),
        }
    }
}

/// A vector of replicated shares whose two halves are each stored as they
/// are or as a seed.
#[derive(Debug)]
pub struct ReplicatedSeedType {
    pub a: SeededType,
    pub b: SeededType,
}

/// What a [`ReplicatedSeedType`] holds.
pub struct ReplicatedSeedView {
    pub a: SeededView,
    pub b: SeededView,
}

impl View for ReplicatedSeedType {
    type V = ReplicatedSeedView;

    open spec fn view(&self) -> ReplicatedSeedView {
        ReplicatedSeedView { a: self.a@, b: self.b@ }
    }
}

/// One party's share of a vector of field elements, in one of four forms.
#[derive(Debug)]
pub enum Rep3ShareVecType {
    Replicated(Vec<Rep3PrimeFieldShare>),
    SeededReplicated(ReplicatedSeedType),
    Additive(Vec<FieldElement>),
    SeededAdditive(SeededType),
}

/// What a [`Rep3ShareVecType`] holds.
pub enum ShareVecView {
    Replicated(Seq<Rep3PrimeFieldShare>),
    SeededReplicated(ReplicatedSeedView),
    Additive(Seq<FieldElement>),
    SeededAdditive(SeededView),
}

impl View for Rep3ShareVecType {
    type V = ShareVecView;

    open spec fn view(&self) -> ShareVecView {
        match self {
            Rep3ShareVecType::Replicated(v) => ShareVecView::Replicated(v@),
            Rep3ShareVecType::SeededReplicated(s) => ShareVecView::SeededReplicated(s@),
            Rep3ShareVecType::Additive(v) => ShareVecView::Additive(v@),
            Rep3ShareVecType::SeededAdditive(s) => ShareVecView::SeededAdditive(s@),
        }
    }
}

/// One party's share of a vector of which some elements are not known yet.
#[derive(Debug)]
pub enum MaybeRep3ShareVecType {
    Replicated(Vec<Option<Rep3PrimeFieldShare>>),
    Additive(Vec<Option<FieldElement>>),
}

/// What a [`MaybeRep3ShareVecType`] holds.
pub enum MaybeShareVecView {
    Replicated(Seq<Option<Rep3PrimeFieldShare>>),
    Additive(Seq<Option<FieldElement>>),
}

impl View for MaybeRep3ShareVecType {
    type V = MaybeShareVecView;

    open spec fn view(&self) -> MaybeShareVecView {
        match self {
            MaybeRep3ShareVecType::Replicated(v) => MaybeShareVecView::Replicated(v@),
            MaybeRep3ShareVecType::Additive(v) => MaybeShareVecView::Additive(v@),
        }
    }
}

/// A copy of a vector of plain values.
pub fn copy_vec<T: Copy>(v: &Vec<T>) -> (r: Vec<T>)
    ensures
        r@ == v@,
{
    let mut r: Vec<T> = Vec::new();
    let mut i: usize = 0;
    while i < v.len()
        invariant
            i <= v.len(),
            r@ == v@.subrange(0, i as int),
        decreases v.len() - i,
    {
        r.push(v[i]);
        assert(r@ =~= v@.subrange(0, i + 1));
        i += 1;
    }
    assert(r@ =~= v@);
    r
}

/// Replicated shares of `vals` for the three parties, under masks drawn
/// from `rng`.
pub fn share_field_elements(vals: &[FieldElement], rng: &mut RngType) -> (r: (
    Vec<Rep3PrimeFieldShare>,
    Vec<Rep3PrimeFieldShare>,
    Vec<Rep3PrimeFieldShare>,
))
    ensures
        is_replicated_sharing(vals@, r.0@, r.1@, r.2@),
{
    let mut s0: Vec<Rep3PrimeFieldShare> = Vec::new();
    let mut s1: Vec<Rep3PrimeFieldShare> = Vec::new();
    let mut s2: Vec<Rep3PrimeFieldShare> = Vec::new();
    let mut i: usize = 0;
    while i < vals.len()
        invariant
            i <= vals.len(),
            is_replicated_sharing(vals@.subrange(0, i as int), s0@, s1@, s2@),
        decreases vals.len() - i,
    {
        let b = random_field_element(rng);
        let c = random_field_element(rng);
        let shares = replicated_shares_of(vals[i], b, c);
        let ghost part0 = s0@;
        let ghost part1 = s1@;
        let ghost part2 = s2@;
        s0.push(shares[0]);
        s1.push(shares[1]);
        s2.push(shares[2]);
        proof {
            let done = vals@.subrange(0, i as int);
            let next = vals@.subrange(0, i + 1);
            assert forall|j: int| 0 <= j < next.len() implies #[trigger] is_replicated_sharing_of(
                next[j],
                s0@[j],
                s1@[j],
                s2@[j],
            ) by {
                if j < i {
                    assert(is_replicated_sharing_of(done[j], part0[j], part1[j], part2[j]));
                }
            }
        }
        i += 1;
    }
    assert(vals@.subrange(0, i as int) =~= vals@);
    (s0, s1, s2)
}

/// Additive shares of `vals` for the three parties, under masks drawn from
/// `rng`.
pub fn share_field_elements_additive(vals: &[FieldElement], rng: &mut RngType) -> (r: (
    Vec<FieldElement>,
    Vec<FieldElement>,
    Vec<FieldElement>,
))
    ensures
        is_additive_sharing(vals@, r.0@, r.1@, r.2@),
{
    let mut s0: Vec<FieldElement> = Vec::new();
    let mut s1: Vec<FieldElement> = Vec::new();
    let mut s2: Vec<FieldElement> = Vec::new();
    let mut i: usize = 0;
    while i < vals.len()
        invariant
            i <= vals.len(),
            is_additive_sharing(vals@.subrange(0, i as int), s0@, s1@, s2@),
        decreases vals.len() - i,
    {
        let b = random_field_element(rng);
        let c = random_field_element(rng);
        let a = mask_field_element(vals[i], b, c);
        let ghost part0 = s0@;
        let ghost part1 = s1@;
        let ghost part2 = s2@;
        s0.push(a);
        s1.push(b);
        s2.push(c);
        proof {
            let done = vals@.subrange(0, i as int);
            let next = vals@.subrange(0, i + 1);
            assert forall|j: int| 0 <= j < next.len() implies #[trigger] is_additive_sharing_of(
                next[j],
                s0@[j],
                s1@[j],
                s2@[j],
            ) by {
                if j < i {
                    assert(is_additive_sharing_of(done[j], part0[j], part1[j], part2[j]));
                }
            }
        }
        i += 1;
    }
    assert(vals@.subrange(0, i as int) =~= vals@);
    (s0, s1, s2)
}

/// The first `n` elements of the stream of `seed`.
pub fn expand_seed(seed: &[u8; 32], n: usize) -> (r: Vec<FieldElement>)
    ensures
        values(r@) == seed_stream(seed@, n as nat),
        all_wf(r@),
{
    let mut r: Vec<FieldElement> = Vec::new();
    let mut position: u128 = 0;
    let mut i: usize = 0;
    while i < n
        invariant
            i <= n,
            r.len() == i,
            position == stream_position(seed@, i as nat),
            forall|j: int|
                0 <= j < i ==> (#[trigger] r[j]).wf() && r[j].value() == stream_value(
                    seed@,
                    j as nat,
                ),
        decreases n - i,
    {
        let drawn = draw_from_seed(seed, position);
        r.push(drawn.0);
        position = drawn.1;
        i += 1;
    }
    assert(values(r@) =~= seed_stream(seed@, n as nat));
    r
}

/// What is left of `vals` when the streams of the two seeds are taken off.
fn seeded_part(vals: &[FieldElement], seed_b: &[u8; 32], seed_c: &[u8; 32]) -> (a: Vec<
    FieldElement,
>)
    ensures
        is_seeded_part(vals@, seed_b@, seed_c@, a@),
{
    let mask_b = expand_seed(seed_b, vals.len());
    let mask_c = expand_seed(seed_c, vals.len());
    let mut a: Vec<FieldElement> = Vec::new();
    let mut i: usize = 0;
    assert(mask_b.len() == vals.len()) by {
        assert(values(mask_b@).len() == vals.len());
    }
    assert(mask_c.len() == vals.len()) by {
        assert(values(mask_c@).len() == vals.len());
    }
    while i < vals.len()
        invariant
            i <= vals.len(),
            mask_b.len() == vals.len(),
            mask_c.len() == vals.len(),
            values(mask_b@) == seed_stream(seed_b@, vals.len() as nat),
            values(mask_c@) == seed_stream(seed_c@, vals.len() as nat),
            is_seeded_part(vals@.subrange(0, i as int), seed_b@, seed_c@, a@),
        decreases vals.len() - i,
    {
        let x = mask_field_element(vals[i], mask_b[i], mask_c[i]);
        proof {
            assert(values(mask_b@)[i as int] == mask_b[i as int].value());
            assert(values(mask_c@)[i as int] == mask_c[i as int].value());
        }
        a.push(x);
        i += 1;
    }
    assert(vals@.subrange(0, i as int) =~= vals@);
    a
}

/// Replicated shares of `vals` in seeded form. Two seeds are drawn from
/// `rng`; their streams are the masks. The first party holds what is left of
/// `vals` and the second seed, the second party the first seed and what is
/// left of `vals`, the third party both seeds.
pub fn share_field_elements_seeded(vals: &[FieldElement], rng: &mut RngType) -> (r: (
    ReplicatedSeedType,
    ReplicatedSeedType,
    ReplicatedSeedType,
))
    ensures
        is_seeded_replicated_sharing(vals@, r.0@, r.1@, r.2@),
{
    let seed_b = random_seed(rng);
    let seed_c = random_seed(rng);
    let a = seeded_part(vals, &seed_b, &seed_c);
    let a_again = copy_vec(&a);
    (
        ReplicatedSeedType { a: SeededType::Shares(a), b: SeededType::Seed(seed_c) },
        ReplicatedSeedType { a: SeededType::Seed(seed_b), b: SeededType::Shares(a_again) },
        ReplicatedSeedType { a: SeededType::Seed(seed_c), b: SeededType::Seed(seed_b) },
    )
}

/// Additive shares of `vals` in seeded form. Two seeds are drawn from `rng`;
/// their streams are the masks. The first party holds what is left of
/// `vals`, the other two one seed each.
pub fn share_field_elements_additive_seeded(vals: &[FieldElement], rng: &mut RngType) -> (r: (
    SeededType,
    SeededType,
    SeededType,
))
    ensures
        is_seeded_additive_sharing(vals@, r.0@, r.1@, r.2@),
{
    let seed_b = random_seed(rng);
    let seed_c = random_seed(rng);
    let a = seeded_part(vals, &seed_b, &seed_c);
    (SeededType::Shares(a), SeededType::Seed(seed_b), SeededType::Seed(seed_c))
}

/// Replicated shares of a vector with unknown elements, under masks drawn
/// from `rng`. No share is made for an unknown element.
pub fn share_maybe_field_elements(vals: &[Option<FieldElement>], rng: &mut RngType) -> (r: (
    Vec<Option<Rep3PrimeFieldShare>>,
    Vec<Option<Rep3PrimeFieldShare>>,
    Vec<Option<Rep3PrimeFieldShare>>,
))
    ensures
        is_maybe_replicated_sharing(vals@, r.0@, r.1@, r.2@),
{
    let mut s0: Vec<Option<Rep3PrimeFieldShare>> = Vec::new();
    let mut s1: Vec<Option<Rep3PrimeFieldShare>> = Vec::new();
    let mut s2: Vec<Option<Rep3PrimeFieldShare>> = Vec::new();
    let mut i: usize = 0;
    while i < vals.len()
        invariant
            i <= vals.len(),
            is_maybe_replicated_sharing(vals@.subrange(0, i as int), s0@, s1@, s2@),
        decreases vals.len() - i,
    {
        let ghost part0 = s0@;
        let ghost part1 = s1@;
        let ghost part2 = s2@;
        match vals[i] {
            Some(v) => {
                let b = random_field_element(rng);
                let c = random_field_element(rng);
                let shares = replicated_shares_of(v, b, c);
                s0.push(Some(shares[0]));
                s1.push(Some(shares[1]));
                s2.push(Some(shares[2]));
            },
            None => {
                s0.push(None);
                s1.push(None);
                s2.push(None);
            },
        }
        proof {
            let done = vals@.subrange(0, i as int);
            let next = vals@.subrange(0, i + 1);
            assert forall|j: int| 0 <= j < next.len() implies match #[trigger] next[j] {
                Some(v) => s0@[j] is Some && s1@[j] is Some && s2@[j] is Some
                    && is_replicated_sharing_of(v, s0@[j]->0, s1@[j]->0, s2@[j]->0),
                None => s0@[j] is None && s1@[j] is None && s2@[j] is None,
            } by {
                if j < i {
                    assert(done[j] == next[j]);
                    assert(part0[j] == s0@[j] && part1[j] == s1@[j] && part2[j] == s2@[j]);
                }
            }
        }
        i += 1;
    }
    assert(vals@.subrange(0, i as int) =~= vals@);
    (s0, s1, s2)
}

/// Additive shares of a vector with unknown elements, under masks drawn from
/// `rng`. No share is made for an unknown element.
pub fn share_maybe_field_elements_additive(
    vals: &[Option<FieldElement>],
    rng: &mut RngType,
) -> (r: (Vec<Option<FieldElement>>, Vec<Option<FieldElement>>, Vec<Option<FieldElement>>))
    ensures
        is_maybe_additive_sharing(vals@, r.0@, r.1@, r.2@),
{
    let mut s0: Vec<Option<FieldElement>> = Vec::new();
    let mut s1: Vec<Option<FieldElement>> = Vec::new();
    let mut s2: Vec<Option<FieldElement>> = Vec::new();
    let mut i: usize = 0;
    while i < vals.len()
        invariant
            i <= vals.len(),
            is_maybe_additive_sharing(vals@.subrange(0, i as int), s0@, s1@, s2@),
        decreases vals.len() - i,
    {
        let ghost part0 = s0@;
        let ghost part1 = s1@;
        let ghost part2 = s2@;
        match vals[i] {
            Some(v) => {
                let b = random_field_element(rng);
                let c = random_field_element(rng);
                let a = mask_field_element(v, b, c);
                s0.push(Some(a));
                s1.push(Some(b));
                s2.push(Some(c));
            },
            None => {
                s0.push(None);
                s1.push(None);
                s2.push(None);
            },
        }
        proof {
            let done = vals@.subrange(0, i as int);
            let next = vals@.subrange(0, i + 1);
            assert forall|j: int| 0 <= j < next.len() implies match #[trigger] next[j] {
                Some(v) => s0@[j] is Some && s1@[j] is Some && s2@[j] is Some
                    && is_additive_sharing_of(v, s0@[j]->0, s1@[j]->0, s2@[j]->0),
                None => s0@[j] is None && s1@[j] is None && s2@[j] is None,
            } by {
                if j < i {
                    assert(done[j] == next[j]);
                    assert(part0[j] == s0@[j] && part1[j] == s1@[j] && part2[j] == s2@[j]);
                }
            }
        }
        i += 1;
    }
    assert(vals@.subrange(0, i as int) =~= vals@);
    (s0, s1, s2)
}

/// The `a` halves of a vector of replicated shares.
pub open spec fn a_parts(s: Seq<Rep3PrimeFieldShare>) -> Seq<FieldElement> {
    Seq::new(s.len(), |i: int| s[i].a)
}

/// The `b` halves of a vector of replicated shares.
pub open spec fn b_parts(s: Seq<Rep3PrimeFieldShare>) -> Seq<FieldElement> {
    Seq::new(s.len(), |i: int| s[i].b)
}

/// `out` is the vector of `n` elements that `view` stands for: the vector
/// itself, or the start of the stream of the seed.
pub open spec fn is_expansion(view: SeededView, n: nat, out: Seq<FieldElement>) -> bool {
    match view {
        SeededView::Shares(v) => out == v && v.len() == n,
        SeededView::Seed(seed) => values(out) == seed_stream(seed, n) && all_wf(out),
    }
}

/// `out` is the vector of `n` replicated shares that `view` stands for.
pub open spec fn is_replicated_expansion(
    view: ReplicatedSeedView,
    n: nat,
    out: Seq<Rep3PrimeFieldShare>,
) -> bool {
    &&& out.len() == n
    &&& is_expansion(view.a, n, a_parts(out))
    &&& is_expansion(view.b, n, b_parts(out))
}

/// The three views are the seeded replicated shares of `vals`.
pub open spec fn is_seeded_replicated_sharing(
    vals: Seq<FieldElement>,
    s0: ReplicatedSeedView,
    s1: ReplicatedSeedView,
    s2: ReplicatedSeedView,
) -> bool {
    &&& s0.a is Shares
    &&& s1.a is Seed
    &&& s2.a is Seed
    &&& is_seeded_part(vals, s1.a->Seed_0, s2.a->Seed_0, s0.a->Shares_0)
    &&& s0.b == s2.a
    &&& s1.b == s0.a
    &&& s2.b == s1.a
}

/// The three views are the seeded additive shares of `vals`.
pub open spec fn is_seeded_additive_sharing(
    vals: Seq<FieldElement>,
    s0: SeededView,
    s1: SeededView,
    s2: SeededView,
) -> bool {
    &&& s0 is Shares
    &&& s1 is Seed
    &&& s2 is Seed
    &&& is_seeded_part(vals, s1->Seed_0, s2->Seed_0, s0->Shares_0)
}

impl SeededType {
    /// The vector of `n` elements that this stands for, if there is one: a
    /// stored vector of another length stands for none.
    pub fn expand_vec(&self, n: usize) -> (r: Option<Vec<FieldElement>>)
        ensures
            match r {
                Some(out) => is_expansion(self@, n as nat, out@),
                None => self@ is Shares && self@->Shares_0.len() != n,
            },
    {
        match self {
            SeededType::Shares(v) => {
                if v.len() == n {
                    Some(copy_vec(v))
                } else {
                    None
                }
            },
            SeededType::Seed(seed) => Some(expand_seed(seed, n)),
        }
    }
}

impl ReplicatedSeedType {
    /// The vector of `n` replicated shares that this stands for, if there
    /// is one: a stored half of another length stands for none.
    pub fn expand_vec(&self, n: usize) -> (r: Option<Vec<Rep3PrimeFieldShare>>)
        ensures
            match r {
                Some(out) => is_replicated_expansion(self@, n as nat, out@),
                None => (self@.a is Shares && self@.a->Shares_0.len() != n) || (self@.b is Shares
                    && self@.b->Shares_0.len() != n),
            },
    {
        let a = match self.a.expand_vec(n) {
            Some(a) => a,
            None => {
                return None;
            },
        };
        let b = match self.b.expand_vec(n) {
            Some(b) => b,
            None => {
                return None;
            },
        };
        assert(a.len() == n && b.len() == n) by {
            assert(values(a@).len() == a.len());
            assert(values(b@).len() == b.len());
        }
        let mut out: Vec<Rep3PrimeFieldShare> = Vec::new();
        let mut i: usize = 0;
        while i < n
            invariant
                i <= n,
                a.len() == n,
                b.len() == n,
                out.len() == i,
                forall|j: int| 0 <= j < i ==> (#[trigger] out[j]).a == a[j] && out[j].b == b[j],
            decreases n - i,
        {
            out.push(Rep3PrimeFieldShare { a: a[i], b: b[i] });
            i += 1;
        }
        assert(a_parts(out@) =~= a@);
        assert(b_parts(out@) =~= b@);
        Some(out)
    }
}

/// The sums of three vectors of additive shares, element by element, if the
/// vectors are of one length.
pub fn combine_additive_vecs(a: &[FieldElement], b: &[FieldElement], c: &[FieldElement]) -> (r:
    Option<Vec<FieldElement>>)
    ensures
        match r {
            Some(out) => {
                &&& a.len() == b.len()
                &&& a.len() == c.len()
                &&& out.len() == a.len()
                &&& forall|i: int|
                    0 <= i < out.len() ==> (#[trigger] out[i]).value() == combined(
                        a[i].value(),
                        b[i].value(),
                        c[i].value(),
                    )
            },
            None => a.len() != b.len() || a.len() != c.len(),
        },
{
    if a.len() != b.len() || a.len() != c.len() {
        return None;
    }
    let mut out: Vec<FieldElement> = Vec::new();
    let mut i: usize = 0;
    while i < a.len()
        invariant
            i <= a.len(),
            a.len() == b.len(),
            a.len() == c.len(),
            out.len() == i,
            forall|j: int|
                0 <= j < i ==> (#[trigger] out[j]).value() == combined(
                    a[j].value(),
                    b[j].value(),
                    c[j].value(),
                ),
        decreases a.len() - i,
    {
        out.push(combine_additive(a[i], b[i], c[i]));
        i += 1;
    }
    Some(out)
}

/// The secrets that three vectors of replicated shares stand for, if the
/// vectors are of one length.
pub fn combine_field_elements(
    share1: &[Rep3PrimeFieldShare],
    share2: &[Rep3PrimeFieldShare],
    share3: &[Rep3PrimeFieldShare],
) -> (r: Option<Vec<FieldElement>>)
    ensures
        match r {
            Some(out) => {
                &&& share1.len() == share2.len()
                &&& share1.len() == share3.len()
                &&& out.len() == share1.len()
                &&& forall|i: int|
                    0 <= i < out.len() ==> (#[trigger] out[i]).value() == combined(
                        share1[i].a.value(),
                        share2[i].a.value(),
                        share3[i].a.value(),
                    )
            },
            None => share1.len() != share2.len() || share1.len() != share3.len(),
        },
{
    if share1.len() != share2.len() || share1.len() != share3.len() {
        return None;
    }
    let mut out: Vec<FieldElement> = Vec::new();
    let mut i: usize = 0;
    while i < share1.len()
        invariant
            i <= share1.len(),
            share1.len() == share2.len(),
            share1.len() == share3.len(),
            out.len() == i,
            forall|j: int|
                0 <= j < i ==> (#[trigger] out[j]).value() == combined(
                    share1[j].a.value(),
                    share2[j].a.value(),
                    share3[j].a.value(),
                ),
        decreases share1.len() - i,
    {
        out.push(combine_field_element(share1[i], share2[i], share3[i]));
        i += 1;
    }
    Some(out)
}

/// Replicated sharing followed by combining gives the secrets back.
pub proof fn lemma_replicated_sharing_combines(
    vals: Seq<FieldElement>,
    s0: Seq<Rep3PrimeFieldShare>,
    s1: Seq<Rep3PrimeFieldShare>,
    s2: Seq<Rep3PrimeFieldShare>,
    recovered: Seq<FieldElement>,
)
    requires
        all_wf(vals),
        is_replicated_sharing(vals, s0, s1, s2),
        recovered.len() == vals.len(),
        forall|i: int|
            0 <= i < recovered.len() ==> (#[trigger] recovered[i]).value() == combined(
                s0[i].a.value(),
                s1[i].a.value(),
                s2[i].a.value(),
            ),
    ensures
        recovered == vals,
{
    assert forall|i: int| 0 <= i < vals.len() implies recovered[i] == vals[i] by {
        assert(is_replicated_sharing_of(vals[i], s0[i], s1[i], s2[i]));
        assert(vals[i].wf());
        lemma_share_then_combine(vals[i], s0[i].a, s1[i].a, s2[i].a, recovered[i]);
    }
    assert(recovered =~= vals);
}

/// Additive sharing followed by combining gives the secrets back.
pub proof fn lemma_additive_sharing_combines(
    vals: Seq<FieldElement>,
    a: Seq<FieldElement>,
    b: Seq<FieldElement>,
    c: Seq<FieldElement>,
    recovered: Seq<FieldElement>,
)
    requires
        all_wf(vals),
        is_additive_sharing(vals, a, b, c),
        recovered.len() == vals.len(),
        forall|i: int|
            0 <= i < recovered.len() ==> (#[trigger] recovered[i]).value() == combined(
                a[i].value(),
                b[i].value(),
                c[i].value(),
            ),
    ensures
        recovered == vals,
{
    assert forall|i: int| 0 <= i < vals.len() implies recovered[i] == vals[i] by {
        assert(is_additive_sharing_of(vals[i], a[i], b[i], c[i]));
        assert(vals[i].wf());
        lemma_share_then_combine(vals[i], a[i], b[i], c[i], recovered[i]);
    }
    assert(recovered =~= vals);
}

/// Seeded and plain replicated sharing of the same secrets under the same
/// masks agree: where the masks of the plain sharing are the streams of the
/// two seeds, the seeded shares expand to the plain shares, party by party.
pub proof fn lemma_seeded_expands_to_plain(
    vals: Seq<FieldElement>,
    seeded0: ReplicatedSeedView,
    seeded1: ReplicatedSeedView,
    seeded2: ReplicatedSeedView,
    expanded0: Seq<Rep3PrimeFieldShare>,
    expanded1: Seq<Rep3PrimeFieldShare>,
    expanded2: Seq<Rep3PrimeFieldShare>,
    plain0: Seq<Rep3PrimeFieldShare>,
    plain1: Seq<Rep3PrimeFieldShare>,
    plain2: Seq<Rep3PrimeFieldShare>,
)
    requires
        is_seeded_replicated_sharing(vals, seeded0, seeded1, seeded2),
        is_replicated_expansion(seeded0, vals.len(), expanded0),
        is_replicated_expansion(seeded1, vals.len(), expanded1),
        is_replicated_expansion(seeded2, vals.len(), expanded2),
        is_replicated_sharing(vals, plain0, plain1, plain2),
        values(a_parts(plain1)) == seed_stream(seeded1.a->Seed_0, vals.len()),
        values(a_parts(plain2)) == seed_stream(seeded2.a->Seed_0, vals.len()),
    ensures
        expanded0 == plain0,
        expanded1 == plain1,
        expanded2 == plain2,
{
    let n = vals.len();
    let seed_b = seeded1.a->Seed_0;
    let seed_c = seeded2.a->Seed_0;
    let part = seeded0.a->Shares_0;
    assert forall|i: int| 0 <= i < n implies expanded0[i] == plain0[i] && expanded1[i] == plain1[i]
        && expanded2[i] == plain2[i] by {
        assert(is_replicated_sharing_of(vals[i], plain0[i], plain1[i], plain2[i]));
        let vb = stream_value(seed_b, i as nat);
        let vc = stream_value(seed_c, i as nat);
        assert(seed_stream(seed_b, n)[i] == vb);
        assert(seed_stream(seed_c, n)[i] == vc);
        assert(values(a_parts(plain1))[i] == plain1[i].a.value());
        assert(values(a_parts(plain2))[i] == plain2[i].a.value());
        assert(part[i].value() == plain0[i].a.value());
        part[i].lemma_value(plain0[i].a);
        // the first party: what is left of the secrets, and the second stream
        assert(a_parts(expanded0)[i] == part[i]);
        assert(values(b_parts(expanded0))[i] == vc);
        b_parts(expanded0)[i].lemma_value(plain2[i].a);
        assert(expanded0[i].a == a_parts(expanded0)[i]);
        assert(expanded0[i].b == b_parts(expanded0)[i]);
        // the second party: the first stream, and what is left of the secrets
        assert(values(a_parts(expanded1))[i] == vb);
        a_parts(expanded1)[i].lemma_value(plain1[i].a);
        assert(b_parts(expanded1)[i] == part[i]);
        assert(expanded1[i].a == a_parts(expanded1)[i]);
        assert(expanded1[i].b == b_parts(expanded1)[i]);
        // the third party: both streams
        assert(values(a_parts(expanded2))[i] == vc);
        a_parts(expanded2)[i].lemma_value(plain2[i].a);
        assert(values(b_parts(expanded2))[i] == vb);
        b_parts(expanded2)[i].lemma_value(plain1[i].a);
        assert(expanded2[i].a == a_parts(expanded2)[i]);
        assert(expanded2[i].b == b_parts(expanded2)[i]);
    }
    assert(expanded0 =~= plain0);
    assert(expanded1 =~= plain1);
    assert(expanded2 =~= plain2);
}

/// Seeded and plain additive sharing of the same secrets under the same
/// masks agree: where the masks of the plain sharing are the streams of the
/// two seeds, the seeded shares expand to the plain shares, party by party.
pub proof fn lemma_seeded_additive_expands_to_plain(
    vals: Seq<FieldElement>,
    seeded0: SeededView,
    seeded1: SeededView,
    seeded2: SeededView,
    expanded0: Seq<FieldElement>,
    expanded1: Seq<FieldElement>,
    expanded2: Seq<FieldElement>,
    plain0: Seq<FieldElement>,
    plain1: Seq<FieldElement>,
    plain2: Seq<FieldElement>,
)
    requires
        is_seeded_additive_sharing(vals, seeded0, seeded1, seeded2),
        is_expansion(seeded0, vals.len(), expanded0),
        is_expansion(seeded1, vals.len(), expanded1),
        is_expansion(seeded2, vals.len(), expanded2),
        is_additive_sharing(vals, plain0, plain1, plain2),
        values(plain1) == seed_stream(seeded1->Seed_0, vals.len()),
        values(plain2) == seed_stream(seeded2->Seed_0, vals.len()),
    ensures
        expanded0 == plain0,
        expanded1 == plain1,
        expanded2 == plain2,
{
    let n = vals.len();
    let seed_b = seeded1->Seed_0;
    let seed_c = seeded2->Seed_0;
    assert(values(expanded1).len() == expanded1.len());
    assert(values(expanded2).len() == expanded2.len());
    assert forall|i: int| 0 <= i < n implies expanded0[i] == plain0[i] && expanded1[i] == plain1[i]
        && expanded2[i] == plain2[i] by {
        assert(is_additive_sharing_of(vals[i], plain0[i], plain1[i], plain2[i]));
        assert(seed_stream(seed_b, n)[i] == stream_value(seed_b, i as nat));
        assert(seed_stream(seed_c, n)[i] == stream_value(seed_c, i as nat));
        assert(values(plain1)[i] == plain1[i].value());
        assert(values(plain2)[i] == plain2[i].value());
        assert(values(expanded1)[i] == expanded1[i].value());
        assert(values(expanded2)[i] == expanded2[i].value());
        expanded0[i].lemma_value(plain0[i]);
        expanded1[i].lemma_value(plain1[i]);
        expanded2[i].lemma_value(plain2[i]);
    }
    assert(expanded0 =~= plain0);
    assert(expanded1 =~= plain1);
    assert(expanded2 =~= plain2);
}

/// The three views are shares of `vals` in the form that `seeded` and
/// `additive` choose.
pub open spec fn is_rep3_sharing(
    vals: Seq<FieldElement>,
    seeded: bool,
    additive: bool,
    s0: ShareVecView,
    s1: ShareVecView,
    s2: ShareVecView,
) -> bool {
    match (s0, s1, s2) {
        (
            ShareVecView::SeededAdditive(x0),
            ShareVecView::SeededAdditive(x1),
            ShareVecView::SeededAdditive(x2),
        ) => seeded && additive && is_seeded_additive_sharing(vals, x0, x1, x2),
        (
            ShareVecView::SeededReplicated(x0),
            ShareVecView::SeededReplicated(x1),
            ShareVecView::SeededReplicated(x2),
        ) => seeded && !additive && is_seeded_replicated_sharing(vals, x0, x1, x2),
        (
            ShareVecView::Additive(x0),
            ShareVecView::Additive(x1),
            ShareVecView::Additive(x2),
        ) => !seeded && additive && is_additive_sharing(vals, x0, x1, x2),
        (
            ShareVecView::Replicated(x0),
            ShareVecView::Replicated(x1),
            ShareVecView::Replicated(x2),
        ) => !seeded && !additive && is_replicated_sharing(vals, x0, x1, x2),
        _ => false,
    }
}

/// Shares `input` among the three parties, in the form that `seeded` and
/// `additive` choose, under randomness drawn from `rng`.
pub fn share_in_form(input: &[FieldElement], rng: &mut RngType, seeded: bool, additive: bool) -> (r: (
    Rep3ShareVecType,
    Rep3ShareVecType,
    Rep3ShareVecType,
))
    ensures
        is_rep3_sharing(input@, seeded, additive, r.0@, r.1@, r.2@),
{
    if seeded && additive {
        let (share1, share2, share3) = share_field_elements_additive_seeded(input, rng);
        (
            Rep3ShareVecType::SeededAdditive(share1),
            Rep3ShareVecType::SeededAdditive(share2),
            Rep3ShareVecType::SeededAdditive(share3),
        )
    } else if seeded {
        let (share1, share2, share3) = share_field_elements_seeded(input, rng);
        (
            Rep3ShareVecType::SeededReplicated(share1),
            Rep3ShareVecType::SeededReplicated(share2),
            Rep3ShareVecType::SeededReplicated(share3),
        )
    } else if additive {
        let (share1, share2, share3) = share_field_elements_additive(input, rng);
        (
            Rep3ShareVecType::Additive(share1),
            Rep3ShareVecType::Additive(share2),
            Rep3ShareVecType::Additive(share3),
        )
    } else {
        let (share1, share2, share3) = share_field_elements(input, rng);
        (
            Rep3ShareVecType::Replicated(share1),
            Rep3ShareVecType::Replicated(share2),
            Rep3ShareVecType::Replicated(share3),
        )
    }
}

/// `out` holds the party's own additive parts of the `n` secrets that
/// `view` is a share of.
pub open spec fn is_additive_part(view: ShareVecView, n: nat, out: Seq<FieldElement>) -> bool {
    match view {
        ShareVecView::Replicated(v) => out == a_parts(v) && v.len() == n,
        ShareVecView::SeededReplicated(s) => is_expansion(s.a, n, out),
        ShareVecView::Additive(v) => out == v && v.len() == n,
        ShareVecView::SeededAdditive(s) => is_expansion(s, n, out),
    }
}

/// The length of the vector that `view` stores for the party's own
/// additive parts, if it stores one.
pub open spec fn stored_len(view: ShareVecView) -> Option<nat> {
    match view {
        ShareVecView::Replicated(v) => Some(v.len()),
        ShareVecView::SeededReplicated(s) => match s.a {
            SeededView::Shares(v) => Some(v.len()),
            SeededView::Seed(_) => None,
        },
        ShareVecView::Additive(v) => Some(v.len()),
        ShareVecView::SeededAdditive(s) => match s {
            SeededView::Shares(v) => Some(v.len()),
            SeededView::Seed(_) => None,
        },
    }
}

impl Rep3ShareVecType {
    /// The party's own additive parts of the `n` secrets that this is a
    /// share of, unless it stores them for another number of secrets.
    pub fn additive_part(&self, n: usize) -> (r: Option<Vec<FieldElement>>)
        ensures
            match r {
                Some(out) => is_additive_part(self@, n as nat, out@),
                None => stored_len(self@) is Some && stored_len(self@) != Some(n as nat),
            },
    {
        match self {
            Rep3ShareVecType::Replicated(v) => {
                if v.len() != n {
                    return None;
                }
                let mut out: Vec<FieldElement> = Vec::new();
                let mut i: usize = 0;
                while i < n
                    invariant
                        i <= n,
                        v.len() == n,
                        out.len() == i,
                        forall|j: int| 0 <= j < i ==> #[trigger] out[j] == v[j].a,
                    decreases n - i,
                {
                    out.push(v[i].a);
                    i += 1;
                }
                assert(out@ =~= a_parts(v@));
                Some(out)
            },
            Rep3ShareVecType::SeededReplicated(s) => s.a.expand_vec(n),
            Rep3ShareVecType::Additive(v) => {
                if v.len() != n {
                    return None;
                }
                Some(copy_vec(v))
            },
            Rep3ShareVecType::SeededAdditive(s) => s.expand_vec(n),
        }
    }
}

/// The `n` secrets that the shares of the three parties stand for, unless
/// one of the shares stores its parts for another number of secrets.
pub fn reconstruct(
    share1: &Rep3ShareVecType,
    share2: &Rep3ShareVecType,
    share3: &Rep3ShareVecType,
    n: usize,
) -> (r: Option<Vec<FieldElement>>)
    ensures
        match r {
            Some(out) => exists|part0: Seq<FieldElement>, part1: Seq<FieldElement>, part2: Seq<FieldElement>|
                #[trigger] is_reconstruction(share1@, share2@, share3@, n as nat, part0, part1, part2, out@),
            None => (stored_len(share1@) is Some && stored_len(share1@) != Some(n as nat)) || (
            stored_len(share2@) is Some && stored_len(share2@) != Some(n as nat)) || (stored_len(
                share3@,
            ) is Some && stored_len(share3@) != Some(n as nat)),
        },
{
    let part0 = match share1.additive_part(n) {
        Some(p) => p,
        None => {
            return None;
        },
    };
    let part1 = match share2.additive_part(n) {
        Some(p) => p,
        None => {
            return None;
        },
    };
    let part2 = match share3.additive_part(n) {
        Some(p) => p,
        None => {
            return None;
        },
    };
    proof {
        lemma_additive_part_len(share1@, n as nat, part0@);
        lemma_additive_part_len(share2@, n as nat, part1@);
        lemma_additive_part_len(share3@, n as nat, part2@);
    }
    match combine_additive_vecs(part0.as_slice(), part1.as_slice(), part2.as_slice()) {
        Some(out) => {
            assert(is_reconstruction(share1@, share2@, share3@, n as nat, part0@, part1@, part2@, out@));
            Some(out)
        },
        None => {
            assert(false);
            None
        },
    }
}

/// `part0`, `part1`, `part2` are the additive parts that the three shares stand
/// for, and `out` holds their sums.
pub open spec fn is_reconstruction(
    s0: ShareVecView,
    s1: ShareVecView,
    s2: ShareVecView,
    n: nat,
    part0: Seq<FieldElement>,
    part1: Seq<FieldElement>,
    part2: Seq<FieldElement>,
    out: Seq<FieldElement>,
) -> bool {
    &&& is_additive_part(s0, n, part0)
    &&& is_additive_part(s1, n, part1)
    &&& is_additive_part(s2, n, part2)
    &&& out.len() == n
    &&& forall|i: int|
        0 <= i < n ==> (#[trigger] out[i]).value() == combined(
            part0[i].value(),
            part1[i].value(),
            part2[i].value(),
        )
}

/// The additive parts of `n` secrets are `n` in number.
pub proof fn lemma_additive_part_len(view: ShareVecView, n: nat, out: Seq<FieldElement>)
    requires
        is_additive_part(view, n, out),
    ensures
        out.len() == n,
{
    match view {
        ShareVecView::Replicated(v) => {},
        ShareVecView::SeededReplicated(s) => {
            assert(values(out).len() == out.len());
        },
        ShareVecView::Additive(v) => {},
        ShareVecView::SeededAdditive(s) => {
            assert(values(out).len() == out.len());
        },
    }
}

/// Sharing followed by reconstruction gives the secrets back, in each of
/// the four forms of sharing.
pub proof fn lemma_sharing_reconstructs(
    vals: Seq<FieldElement>,
    seeded: bool,
    additive: bool,
    s0: ShareVecView,
    s1: ShareVecView,
    s2: ShareVecView,
    part0: Seq<FieldElement>,
    part1: Seq<FieldElement>,
    part2: Seq<FieldElement>,
    recovered: Seq<FieldElement>,
)
    requires
        all_wf(vals),
        is_rep3_sharing(vals, seeded, additive, s0, s1, s2),
        is_reconstruction(s0, s1, s2, vals.len(), part0, part1, part2, recovered),
    ensures
        recovered == vals,
{
    let n = vals.len();
    lemma_additive_part_len(s0, n, part0);
    lemma_additive_part_len(s1, n, part1);
    lemma_additive_part_len(s2, n, part2);
    assert forall|i: int| 0 <= i < n implies recovered[i] == vals[i] by {
        assert(vals[i].wf());
        match (s0, s1, s2) {
            (
                ShareVecView::SeededAdditive(x0),
                ShareVecView::SeededAdditive(x1),
                ShareVecView::SeededAdditive(x2),
            ) => {
                assert(values(part1)[i] == part1[i].value());
                assert(values(part2)[i] == part2[i].value());
                assert(seed_stream(x1->Seed_0, n)[i] == stream_value(x1->Seed_0, i as nat));
                assert(seed_stream(x2->Seed_0, n)[i] == stream_value(x2->Seed_0, i as nat));
                assert(part1[i].wf() && part2[i].wf());
                lemma_share_then_combine(vals[i], part0[i], part1[i], part2[i], recovered[i]);
            },
            (
                ShareVecView::SeededReplicated(x0),
                ShareVecView::SeededReplicated(x1),
                ShareVecView::SeededReplicated(x2),
            ) => {
                assert(values(part1)[i] == part1[i].value());
                assert(values(part2)[i] == part2[i].value());
                assert(seed_stream(x1.a->Seed_0, n)[i] == stream_value(x1.a->Seed_0, i as nat));
                assert(seed_stream(x2.a->Seed_0, n)[i] == stream_value(x2.a->Seed_0, i as nat));
                assert(part1[i].wf() && part2[i].wf());
                lemma_share_then_combine(vals[i], part0[i], part1[i], part2[i], recovered[i]);
            },
            (
                ShareVecView::Additive(x0),
                ShareVecView::Additive(x1),
                ShareVecView::Additive(x2),
            ) => {
                assert(is_additive_sharing_of(vals[i], x0[i], x1[i], x2[i]));
                lemma_share_then_combine(vals[i], part0[i], part1[i], part2[i], recovered[i]);
            },
            (
                ShareVecView::Replicated(x0),
                ShareVecView::Replicated(x1),
                ShareVecView::Replicated(x2),
            ) => {
                assert(is_replicated_sharing_of(vals[i], x0[i], x1[i], x2[i]));
                assert(part0[i] == a_parts(x0)[i] && part1[i] == a_parts(x1)[i] && part2[i] == a_parts(
                    x2,
                )[i]);
                lemma_share_then_combine(vals[i], part0[i], part1[i], part2[i], recovered[i]);
            },
            _ => {},
        }
    }
    assert(recovered =~= vals);
}

} // verus!
