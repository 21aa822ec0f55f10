//! Threshold secret sharing of field elements: a secret is the constant
//! term of a polynomial, and party number `i` holds the polynomial's value
//! at `i`.

use crate::field::fadd;
use crate::field::field_add;
use crate::field::field_mul;
use crate::field::fmul;
use crate::field::modulus;
use crate::field::random_field_element;
use crate::field::FieldElement;
use crate::field::RngType;
use crate::rep3::values;
use vstd::prelude::*;

verus! {

/// A share of one field element.
#[derive(Clone, Copy, Debug, PartialEq, Eq, Structural)]
pub struct ShamirPrimeFieldShare {
    pub a: FieldElement,
}

/// The value at `x` of the polynomial with the given coefficients, the
/// constant term first.
pub open spec fn poly_eval(coeffs: Seq<nat>, x: nat) -> nat
    decreases coeffs.len(),
{
    if coeffs.len() == 0 {
        0
    } else {
        fadd(coeffs[0], fmul(x, poly_eval(coeffs.drop_first(), x)))
    }
}

/// The secret is the value of the polynomial at zero.
pub proof fn lemma_secret_at_zero(coeffs: Seq<nat>)
    requires
        coeffs.len() > 0,
        coeffs[0] < modulus(),
    ensures
        poly_eval(coeffs, 0) == coeffs[0],
{
    assert(fmul(0, poly_eval(coeffs.drop_first(), 0)) == 0) by {
        assert(0 * poly_eval(coeffs.drop_first(), 0) == 0);
        assert(0nat % modulus() == 0);
    }
    assert(coeffs[0] % modulus() == coeffs[0]);
}

/// The value at `x` of the polynomial with the given coefficients.
pub fn evaluate_poly(coeffs: &[FieldElement], x: FieldElement) -> (r: FieldElement)
    ensures
        r.value() == poly_eval(values(coeffs@), x.value()),
{
    let mut acc = FieldElement::zero();
    let mut j: usize = coeffs.len();
    assert(values(coeffs@).skip(j as int).len() == 0);
    proof {
        use_type_invariant(&x);
    }
    while j > 0
        invariant
            j <= coeffs.len(),
            x.wf(),
            acc.wf(),
            acc.value() == poly_eval(values(coeffs@).skip(j as int), x.value()),
        decreases j,
    {
        j -= 1;
        let ghost tail = values(coeffs@).skip(j as int);
        assert(tail.drop_first() =~= values(coeffs@).skip(j + 1));
        assert(tail[0] == coeffs[j as int].value());
        let c = coeffs[j];
        proof {
            use_type_invariant(&c);
        }
        acc = field_add(c, field_mul(x, acc));
    }
    assert(values(coeffs@).skip(0) =~= values(coeffs@));
    acc
}

/// The shares of the parties `1` to `num_parties` under the polynomial
/// with the given coefficients, whose constant term is the secret.
pub fn share_with_coefficients(coeffs: &[FieldElement], num_parties: usize) -> (r: Vec<
    FieldElement,
>)
    ensures
        r.len() == num_parties,
        forall|i: int|
            0 <= i < num_parties ==> (#[trigger] r[i]).value() == poly_eval(
                values(coeffs@),
                (i + 1) as nat,
            ),
{
    let mut shares: Vec<FieldElement> = Vec::new();
    let mut i: usize = 0;
    while i < num_parties
        invariant
            i <= num_parties,
            shares.len() == i,
            forall|k: int|
                0 <= k < i ==> (#[trigger] shares[k]).value() == poly_eval(
                    values(coeffs@),
                    (k + 1) as nat,
                ),
        decreases num_parties - i,
    {
        let point: u64 = (i + 1) as u64;
        shares.push(evaluate_poly(coeffs, FieldElement::from_u64(point)));
        i += 1;
    }
    shares
}

/// The polynomials `coeffs`, one for each secret, are of the given degree
/// at most, have the secrets as their constant terms, and give the shares
/// of every party, who holds one share for each secret.
pub open spec fn is_shamir_sharing(
    vals: Seq<FieldElement>,
    degree: nat,
    coeffs: Seq<Seq<nat>>,
    shares: Seq<Seq<ShamirPrimeFieldShare>>,
) -> bool {
    &&& coeffs.len() == vals.len()
    &&& forall|j: int|
        0 <= j < vals.len() ==> (#[trigger] coeffs[j]).len() == degree + 1 && coeffs[j][0]
            == vals[j].value()
    &&& forall|p: int| 0 <= p < shares.len() ==> (#[trigger] shares[p]).len() == vals.len()
    &&& forall|p: int, j: int|
        0 <= p < shares.len() && 0 <= j < vals.len() ==> (#[trigger] shares[p][j]).a.value()
            == poly_eval(coeffs[j], (p + 1) as nat)
}

/// The shares that each party's vector holds.
pub open spec fn share_views(shares: Seq<Vec<ShamirPrimeFieldShare>>) -> Seq<
    Seq<ShamirPrimeFieldShare>,
> {
    Seq::new(shares.len(), |p: int| shares[p]@)
}

/// Shares of `vals` for `num_parties` parties under polynomials of degree
/// `degree` whose further coefficients are drawn from `rng`. The result
/// holds one vector of shares for each party.
pub fn share_field_elements(
    vals: &[FieldElement],
    degree: usize,
    num_parties: usize,
    rng: &mut RngType,
) -> (r: Vec<Vec<ShamirPrimeFieldShare>>)
    ensures
        r.len() == num_parties,
        forall|p: int| 0 <= p < num_parties ==> (#[trigger] r[p]).len() == vals.len(),
        exists|coeffs: Seq<Seq<nat>>| #[trigger]
            is_shamir_sharing(vals@, degree as nat, coeffs, share_views(r@)),
{
    // one polynomial for each secret
    let mut polys: Vec<Vec<FieldElement>> = Vec::new();
    let mut j: usize = 0;
    while j < vals.len()
        invariant
            j <= vals.len(),
            polys.len() == j,
            forall|k: int|
                0 <= k < j ==> (#[trigger] polys[k]).len() == degree + 1 && polys[k][0] == vals[k],
        decreases vals.len() - j,
    {
        let mut coeffs: Vec<FieldElement> = Vec::new();
        coeffs.push(vals[j]);
        let mut d: usize = 0;
        while d < degree
            invariant
                d <= degree,
                coeffs.len() == d + 1,
                coeffs[0] == vals[j as int],
                j < vals.len(),
            decreases degree - d,
        {
            coeffs.push(random_field_element(rng));
            d += 1;
        }
        polys.push(coeffs);
        j += 1;
    }
    let ghost coeffs_spec = Seq::new(polys.len() as nat, |k: int| values(polys[k]@));
    // the values of every polynomial at each party's point
    let mut shares: Vec<Vec<ShamirPrimeFieldShare>> = Vec::new();
    let mut p: usize = 0;
    while p < num_parties
        invariant
            p <= num_parties,
            shares.len() == p,
            polys.len() == vals.len(),
            coeffs_spec == Seq::new(polys.len() as nat, |k: int| values(polys[k]@)),
            forall|q: int, k: int|
                0 <= q < p && 0 <= k < vals.len() ==> shares[q].len() == vals.len() && (
                #[trigger] shares[q][k]).a.value() == poly_eval(coeffs_spec[k], (q + 1) as nat),
            forall|q: int| 0 <= q < p ==> (#[trigger] shares[q]).len() == vals.len(),
        decreases num_parties - p,
    {
        let point = FieldElement::from_u64((p + 1) as u64);
        let mut party: Vec<ShamirPrimeFieldShare> = Vec::new();
        let mut k: usize = 0;
        while k < polys.len()
            invariant
                k <= polys.len(),
                party.len() == k,
                point.value() == p + 1,
                coeffs_spec == Seq::new(polys.len() as nat, |k: int| values(polys[k]@)),
                forall|m: int|
                    0 <= m < k ==> (#[trigger] party[m]).a.value() == poly_eval(
                        coeffs_spec[m],
                        (p + 1) as nat,
                    ),
            decreases polys.len() - k,
        {
            let a = evaluate_poly(polys[k].as_slice(), point);
            party.push(ShamirPrimeFieldShare { a });
            k += 1;
        }
        shares.push(party);
        p += 1;
    }
    proof {
        let views = share_views(shares@);
        assert forall|k: int| 0 <= k < vals.len() implies (#[trigger] coeffs_spec[k]).len()
            == degree + 1 && coeffs_spec[k][0] == vals[k].value() by {
            assert(polys[k].len() == degree + 1);
            assert(values(polys[k]@)[0] == polys[k][0].value());
        }
        assert(is_shamir_sharing(vals@, degree as nat, coeffs_spec, views));
    }
    shares
}

} // verus!
