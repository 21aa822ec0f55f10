//! The roots of unity of the field that a proof system's domains are built
//! from.

use crate::field::fmul;
use crate::field::fpow;
use crate::field::legendre_symbol;
use crate::field::limbs_value;
use crate::field::modulus;
use crate::field::FieldElement;
use crate::field::Legendre;
use vstd::prelude::*;

verus! {

/// The largest `s` for which `2^s` divides the order of the field's
/// multiplicative group.
pub const TWO_ADICITY: usize = 28;

/// The limbs of the odd part of the order of the field's multiplicative
/// group, least significant first.
pub const TRACE_LIMB_0: u64 = 0x9b9709143e1f593f;

pub const TRACE_LIMB_1: u64 = 0x181585d2833e8487;

pub const TRACE_LIMB_2: u64 = 0x131a029b85045b68;

pub const TRACE_LIMB_3: u64 = 0x30644e72e;

/// The odd part of the order of the field's multiplicative group.
pub open spec fn trace() -> nat {
    limbs_value(TRACE_LIMB_0, TRACE_LIMB_1, TRACE_LIMB_2, TRACE_LIMB_3)
}

/// The order of the field's multiplicative group is `2^28` times its odd
/// part.
#[verifier::rlimit(50)]
pub proof fn lemma_trace()
    ensures
        trace() * 0x1000_0000 + 1 == modulus(),
        trace() % 2 == 1,
{
}

/// `q` is the least number from one on that is not a square in the field.
pub open spec fn is_least_non_residue(q: nat) -> bool {
    &&& 1 <= q
    &&& legendre_symbol(q) == Legendre::QuadraticNonResidue
    &&& forall|c: nat| 1 <= c < q ==> legendre_symbol(c) != Legendre::QuadraticNonResidue
}

/// `roots` holds, from its end backwards, the power of `q` to the odd part
/// of the group order and then the square of each element before: so the
/// element at index `i` is a root of unity of order `2^i`.
pub open spec fn is_roots_of(q: nat, roots: Seq<FieldElement>) -> bool {
    &&& roots.len() == TWO_ADICITY + 1
    &&& roots[TWO_ADICITY as int].value() == fpow(q, trace())
    &&& forall|i: int|
        0 <= i < TWO_ADICITY ==> (#[trigger] roots[i]).value() == fmul(
            roots[i + 1].value(),
            roots[i + 1].value(),
        )
}

/// The least number that is not a square in the field, and the roots of
/// unity that it generates: its power to the odd part of the group order,
/// squared again and again, in reverse. Numbers are tried from one on, as
/// far as 64 bits go; none is found only if all of these are squares.
pub fn roots_of_unity() -> (r: Option<(FieldElement, Vec<FieldElement>)>)
    ensures
        match r {
            Some((q, roots)) => is_least_non_residue(q.value()) && is_roots_of(
                q.value(),
                roots@,
            ),
            None => forall|c: nat|
                1 <= c < u64::MAX ==> legendre_symbol(c) != Legendre::QuadraticNonResidue,
        },
{
    let mut candidate: u64 = 1;
    while candidate < u64::MAX
        invariant
            1 <= candidate,
            forall|c: nat| 1 <= c < candidate ==> legendre_symbol(c) != Legendre::QuadraticNonResidue,
        decreases u64::MAX - candidate,
    {
        let q = FieldElement::from_u64(candidate);
        if q.legendre() == Legendre::QuadraticNonResidue {
            let trace_limbs = [TRACE_LIMB_0, TRACE_LIMB_1, TRACE_LIMB_2, TRACE_LIMB_3];
            let z = q.pow(&trace_limbs);
            // the powers of z by 1, 2, 4, ...
            let mut squares: Vec<FieldElement> = Vec::new();
            squares.push(z);
            let mut i: usize = 1;
            while i <= TWO_ADICITY
                invariant
                    1 <= i <= TWO_ADICITY + 1,
                    squares.len() == i,
                    squares[0] == z,
                    forall|j: int|
                        1 <= j < i ==> (#[trigger] squares[j]).value() == fmul(
                            squares[j - 1].value(),
                            squares[j - 1].value(),
                        ),
                decreases TWO_ADICITY + 1 - i,
            {
                let next = squares[i - 1].square();
                squares.push(next);
                i += 1;
            }
            // the same in reverse
            let mut roots: Vec<FieldElement> = Vec::new();
            let mut k: usize = 0;
            while k <= TWO_ADICITY
                invariant
                    k <= TWO_ADICITY + 1,
                    squares.len() == TWO_ADICITY + 1,
                    roots.len() == k,
                    forall|j: int| 0 <= j < k ==> #[trigger] roots[j] == squares[TWO_ADICITY - j],
                decreases TWO_ADICITY + 1 - k,
            {
                roots.push(squares[TWO_ADICITY - k]);
                k += 1;
            }
            proof {
                assert forall|j: int| 0 <= j < TWO_ADICITY implies (#[trigger] roots[j]).value()
                    == fmul(roots[j + 1].value(), roots[j + 1].value()) by {
                    assert(roots[j] == squares[TWO_ADICITY - j]);
                    assert(roots[j + 1] == squares[TWO_ADICITY - (j + 1)]);
                    assert(squares[TWO_ADICITY - j].value() == fmul(
                        squares[TWO_ADICITY - j - 1].value(),
                        squares[TWO_ADICITY - j - 1].value(),
                    ));
                }
                assert(roots[TWO_ADICITY as int] == squares[0]);
            }
            return Some((q, roots));
        }
        candidate += 1;
    }
    None
}

} // verus!
