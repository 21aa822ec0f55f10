//! A witness split into its public part, which every party holds in the
//! clear, and its secret part, of which every party holds a share.

use crate::field::FieldElement;
use crate::field::RngType;
use crate::rep3::copy_vec;
use crate::rep3::is_rep3_sharing;
use crate::rep3::is_replicated_sharing;
use crate::rep3::share_field_elements;
use crate::rep3::share_in_form;
use crate::rep3::Rep3PrimeFieldShare;
use crate::rep3::Rep3ShareVecType;
use crate::rep3::ShareVecView;
use crate::shamir::is_shamir_sharing;
use crate::shamir::ShamirPrimeFieldShare;
use vstd::prelude::*;
use vstd::slice::slice_subrange;
use vstd::slice::slice_to_vec;

verus! {

/// The values of all variables of a circuit: first the public ones, the
/// constant one at their head, then the secret ones.
#[derive(Debug)]
pub struct Witness {
    pub values: Vec<FieldElement>,
}

/// One party's part of a shared witness.
#[derive(Debug)]
pub struct SharedWitness<S> {
    /// The public values, the constant one at their head.
    pub public_inputs: Vec<FieldElement>,
    /// This party's shares of the secret values.
    pub witness: Vec<S>,
}

/// One party's part of a witness shared among three parties, in one of the
/// four forms of sharing.
#[derive(Debug)]
pub struct SerializeableSharedRep3Witness {
    /// The public values, the constant one at their head.
    pub public_inputs: Vec<FieldElement>,
    /// This party's share of the secret values.
    pub witness: Rep3ShareVecType,
}

/// The public part of a witness: its first `k` values.
pub open spec fn public_part(values: Seq<FieldElement>, k: int) -> Seq<FieldElement> {
    values.subrange(0, k)
}

/// The secret part of a witness: what follows its first `k` values.
pub open spec fn secret_part(values: Seq<FieldElement>, k: int) -> Seq<FieldElement> {
    values.subrange(k, values.len() as int)
}

/// The shares of the secret values that each party's part holds.
pub open spec fn witness_views(parts: Seq<SharedWitness<ShamirPrimeFieldShare>>) -> Seq<
    Seq<ShamirPrimeFieldShare>,
> {
    Seq::new(parts.len(), |p: int| parts[p].witness@)
}

impl SerializeableSharedRep3Witness {
    /// The same part of a witness, its shares marked as replicated ones.
    pub fn from_shared_witness(inp: SharedWitness<Rep3PrimeFieldShare>) -> (r: Self)
        ensures
            r.public_inputs@ == inp.public_inputs@,
            r.witness@ == ShareVecView::Replicated(inp.witness@),
    {
        SerializeableSharedRep3Witness {
            public_inputs: inp.public_inputs,
            witness: Rep3ShareVecType::Replicated(inp.witness),
        }
    }

    /// Splits a witness after its first `num_pub_inputs` values and shares
    /// what follows among the three parties, in the form that `seeded` and
    /// `additive` choose. Every party gets the public values as they are.
    pub fn share_rep3(
        witness: Witness,
        num_pub_inputs: usize,
        rng: &mut RngType,
        seeded: bool,
        additive: bool,
    ) -> (r: [Self; 3])
        requires
            num_pub_inputs <= witness.values.len(),
        ensures
            forall|p: int|
                0 <= p < 3 ==> (#[trigger] r[p]).public_inputs@ == public_part(
                    witness.values@,
                    num_pub_inputs as int,
                ),
            is_rep3_sharing(
                secret_part(witness.values@, num_pub_inputs as int),
                seeded,
                additive,
                r[0].witness@,
                r[1].witness@,
                r[2].witness@,
            ),
    {
        let all = witness.values.as_slice();
        let public_inputs = slice_subrange(all, 0, num_pub_inputs);
        let secret = slice_subrange(all, num_pub_inputs, all.len());
        let (share1, share2, share3) = share_in_form(secret, rng, seeded, additive);
        [
            SerializeableSharedRep3Witness {
                public_inputs: slice_to_vec(public_inputs),
                witness: share1,
            },
            SerializeableSharedRep3Witness {
                public_inputs: slice_to_vec(public_inputs),
                witness: share2,
            },
            SerializeableSharedRep3Witness {
                public_inputs: slice_to_vec(public_inputs),
                witness: share3,
            },
        ]
    }
}

impl SharedWitness<Rep3PrimeFieldShare> {
    /// Splits a witness after its first `num_pub_inputs` values and shares
    /// what follows among the three parties in replicated form. Every party
    /// gets the public values as they are.
    pub fn share_rep3(witness: Witness, num_pub_inputs: usize, rng: &mut RngType) -> (r: [Self; 3])
        requires
            num_pub_inputs <= witness.values.len(),
        ensures
            forall|p: int|
                0 <= p < 3 ==> (#[trigger] r[p]).public_inputs@ == public_part(
                    witness.values@,
                    num_pub_inputs as int,
                ),
            is_replicated_sharing(
                secret_part(witness.values@, num_pub_inputs as int),
                r[0].witness@,
                r[1].witness@,
                r[2].witness@,
            ),
    {
        let all = witness.values.as_slice();
        let public_inputs = slice_subrange(all, 0, num_pub_inputs);
        let secret = slice_subrange(all, num_pub_inputs, all.len());
        let (share1, share2, share3) = share_field_elements(secret, rng);
        [
            SharedWitness { public_inputs: slice_to_vec(public_inputs), witness: share1 },
            SharedWitness { public_inputs: slice_to_vec(public_inputs), witness: share2 },
            SharedWitness { public_inputs: slice_to_vec(public_inputs), witness: share3 },
        ]
    }
}

impl SharedWitness<ShamirPrimeFieldShare> {
    /// Splits a witness after its first `num_pub_inputs` values and shares
    /// what follows among `num_parties` parties under polynomials of degree
    /// `degree`. Every party gets the public values as they are.
    pub fn share_shamir(
        witness: Witness,
        num_pub_inputs: usize,
        degree: usize,
        num_parties: usize,
        rng: &mut RngType,
    ) -> (r: Vec<Self>)
        requires
            num_pub_inputs <= witness.values.len(),
        ensures
            r.len() == num_parties,
            forall|p: int|
                0 <= p < num_parties ==> (#[trigger] r[p]).public_inputs@ == public_part(
                    witness.values@,
                    num_pub_inputs as int,
                ),
            forall|p: int|
                0 <= p < num_parties ==> (#[trigger] r[p]).witness@.len() == witness.values.len()
                    - num_pub_inputs,
            exists|coeffs: Seq<Seq<nat>>| #[trigger]
                is_shamir_sharing(
                    secret_part(witness.values@, num_pub_inputs as int),
                    degree as nat,
                    coeffs,
                    witness_views(r@),
                ),
    {
        let all = witness.values.as_slice();
        let public_inputs = slice_subrange(all, 0, num_pub_inputs);
        let secret = slice_subrange(all, num_pub_inputs, all.len());
        let shares = crate::shamir::share_field_elements(secret, degree, num_parties, rng);
        let ghost coeffs = choose|coeffs: Seq<Seq<nat>>| #[trigger]
            is_shamir_sharing(
                secret@,
                degree as nat,
                coeffs,
                crate::shamir::share_views(shares@),
            );
        let mut parts: Vec<SharedWitness<ShamirPrimeFieldShare>> = Vec::new();
        let mut p: usize = 0;
        while p < num_parties
            invariant
                p <= num_parties,
                shares.len() == num_parties,
                parts.len() == p,
                public_inputs@ == public_part(witness.values@, num_pub_inputs as int),
                secret@ == secret_part(witness.values@, num_pub_inputs as int),
                is_shamir_sharing(
                    secret@,
                    degree as nat,
                    coeffs,
                    crate::shamir::share_views(shares@),
                ),
                forall|q: int|
                    0 <= q < p ==> (#[trigger] parts[q]).public_inputs@ == public_inputs@
                        && parts[q].witness@ == shares[q]@,
            decreases num_parties - p,
        {
            parts.push(
                SharedWitness {
                    public_inputs: slice_to_vec(public_inputs),
                    witness: copy_vec(&shares[p]),
                },
            );
            p += 1;
        }
        proof {
            assert(witness_views(parts@) =~= crate::shamir::share_views(shares@));
            assert(secret@ == secret_part(witness.values@, num_pub_inputs as int));
            assert(is_shamir_sharing(
                secret_part(witness.values@, num_pub_inputs as int),
                degree as nat,
                coeffs,
                witness_views(parts@),
            ));
        }
        parts
    }
}

impl<S: Copy> Clone for SharedWitness<S> {
    fn clone(&self) -> (r: Self)
        ensures
            r.public_inputs@ == self.public_inputs@,
            r.witness@ == self.witness@,
    {
        SharedWitness {
            public_inputs: copy_vec(&self.public_inputs),
            witness: copy_vec(&self.witness),
        }
    }
}

} // verus!
