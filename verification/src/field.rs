//! Elements of the scalar field of the BN254 curve, held as four 64-bit limbs
//! of their canonical representative, least significant limb first.

use ark_bn254::Fr;
use ark_ff::BigInt;
use ark_ff::Field;
use ark_ff::LegendreSymbol;
use ark_ff::PrimeField;
use ark_ff::UniformRand;
use rand::Rng;
use rand::SeedableRng;
use rand_chacha::ChaCha12Rng;
use vstd::arithmetic::power::pow;
use vstd::prelude::*;

verus! {

/// The generator that all randomness of a session is drawn from.
pub type RngType = ChaCha12Rng;

/// `ChaCha12Rng` of `rand_chacha`, a value that is handed on and never
/// looked into.
#[verifier::external_type_specification]
#[verifier::external_body]
pub struct ExChaCha12Rng(ChaCha12Rng);

/// The limbs of the field's modulus, least significant first.
pub const MODULUS_LIMB_0: u64 = 0x43e1f593f0000001;

pub const MODULUS_LIMB_1: u64 = 0x2833e84879b97091;

pub const MODULUS_LIMB_2: u64 = 0xb85045b68181585d;

pub const MODULUS_LIMB_3: u64 = 0x30644e72e131a029;

/// The number of bits of the modulus.
pub const MODULUS_BIT_SIZE: usize = 254;

/// The order of the field.
pub open spec fn modulus() -> nat {
    0x30644e72e131a029b85045b68181585d2833e84879b9709143e1f593f0000001nat
}

/// The number that four limbs stand for.
pub open spec fn limbs_value(l0: u64, l1: u64, l2: u64, l3: u64) -> nat {
    (l0 as nat) + (l1 as nat) * 0x1_0000_0000_0000_0000nat + (l2 as nat)
        * 0x1_0000_0000_0000_0000_0000_0000_0000_0000nat + (l3 as nat)
        * 0x1_0000_0000_0000_0000_0000_0000_0000_0000_0000_0000_0000_0000nat
}

/// Sum of two residues.
pub open spec fn fadd(a: nat, b: nat) -> nat {
    (a + b) % modulus()
}

/// Difference of two residues.
pub open spec fn fsub(a: nat, b: nat) -> nat {
    ((a + modulus() - b % modulus()) as nat) % modulus()
}

/// Product of two residues.
pub open spec fn fmul(a: nat, b: nat) -> nat {
    (a * b) % modulus()
}

/// Power of a residue.
pub open spec fn fpow(a: nat, e: nat) -> nat {
    (pow(a as int, e) % (modulus() as int)) as nat
}

/// Whether an element is zero, a square, or neither.
#[derive(Clone, Copy, Debug, PartialEq, Eq, Structural)]
pub enum Legendre {
    Zero,
    QuadraticResidue,
    QuadraticNonResidue,
}

/// The Legendre symbol of a residue, by Euler's criterion.
pub open spec fn legendre_symbol(a: nat) -> Legendre {
    let s = fpow(a, ((modulus() - 1) / 2) as nat);
    if s == 0 {
        Legendre::Zero
    } else if s == 1 {
        Legendre::QuadraticResidue
    } else {
        Legendre::QuadraticNonResidue
    }
}

/// An element of the field.
#[derive(Clone, Copy, Debug, PartialEq, Eq, Structural)]
pub struct FieldElement {
    l0: u64,
    l1: u64,
    l2: u64,
    l3: u64,
}

impl FieldElement {
    /// The canonical representative, a number below the modulus.
    pub closed spec fn value(self) -> nat {
        limbs_value(self.l0, self.l1, self.l2, self.l3)
    }

    /// The limbs of the canonical representative, least significant first.
    pub closed spec fn limbs(self) -> Seq<u64> {
        seq![self.l0, self.l1, self.l2, self.l3]
    }

    /// The representative is below the modulus.
    #[verifier::type_invariant]
    pub open spec fn wf(self) -> bool {
        self.value() < modulus()
    }

    /// Bit `i` of the canonical representative, bit 0 being the least
    /// significant.
    pub open spec fn bit(self, i: int) -> bool {
        0 <= i < 256 && (self.limbs()[i / 64] >> ((i % 64) as u64)) & 1 == 1
    }

    /// An element is determined by its value, and its limbs spell the value.
    pub proof fn lemma_value(self, other: FieldElement)
        ensures
            self.limbs().len() == 4,
            self.value() == limbs_value(
                self.limbs()[0],
                self.limbs()[1],
                self.limbs()[2],
                self.limbs()[3],
            ),
            self.value() == other.value() <==> self == other,
    {
    }

    /// The element with the given limbs, if they spell a number below the
    /// modulus.
    #[verifier::rlimit(50)]
    pub fn from_limbs(limbs: [u64; 4]) -> (r: Option<FieldElement>)
        ensures
            match r {
                Some(f) => {
                    &&& f.limbs() == limbs@
                    &&& f.value() == limbs_value(limbs[0], limbs[1], limbs[2], limbs[3])
                    &&& f.wf()
                },
                None => limbs_value(limbs[0], limbs[1], limbs[2], limbs[3]) >= modulus(),
            },
    {
        let l0: u64 = limbs[0];
        let l1: u64 = limbs[1];
        let l2: u64 = limbs[2];
        let l3: u64 = limbs[3];
        let below = l3 < MODULUS_LIMB_3 || (l3 == MODULUS_LIMB_3 && (l2 < MODULUS_LIMB_2 || (l2
            == MODULUS_LIMB_2 && (l1 < MODULUS_LIMB_1 || (l1 == MODULUS_LIMB_1 && l0
            < MODULUS_LIMB_0)))));
        if below {
            let f = FieldElement { l0, l1, l2, l3 };
            assert(f.limbs() =~= limbs@);
            Some(f)
        } else {
            None
        }
    }

    /// The limbs of the canonical representative, least significant first.
    pub fn to_limbs(&self) -> (r: [u64; 4])
        ensures
            r@ == self.limbs(),
    {
        let r = [self.l0, self.l1, self.l2, self.l3];
        assert(r@ =~= self.limbs());
        r
    }

    /// The element that stands for a small number.
    pub fn from_u64(x: u64) -> (r: FieldElement)
        ensures
            r.value() == x,
    {
        FieldElement { l0: x, l1: 0, l2: 0, l3: 0 }
    }

    /// The additive identity.
    pub fn zero() -> (r: FieldElement)
        ensures
            r.value() == 0,
    {
        FieldElement { l0: 0, l1: 0, l2: 0, l3: 0 }
    }

    /// The multiplicative identity.
    pub fn one() -> (r: FieldElement)
        ensures
            r.value() == 1,
    {
        FieldElement { l0: 1, l1: 0, l2: 0, l3: 0 }
    }

    /// Bit `i` of the canonical representative.
    pub fn get_bit(&self, i: usize) -> (b: bool)
        ensures
            b == self.bit(i as int),
    {
        if i >= 256 {
            return false;
        }
        let limb: u64 = if i < 64 {
            self.l0
        } else if i < 128 {
            self.l1
        } else if i < 192 {
            self.l2
        } else {
            self.l3
        };
        let shift: u64 = (i % 64) as u64;
        (limb >> shift) & 1 == 1
    }

    /// The sum of two elements.
    pub fn add(&self, other: &FieldElement) -> (r: FieldElement)
        ensures
            r.value() == fadd(self.value(), other.value()),
    {
        proof {
            use_type_invariant(self);
            use_type_invariant(other);
        }
        field_add(*self, *other)
    }

    /// The difference of two elements.
    pub fn sub(&self, other: &FieldElement) -> (r: FieldElement)
        ensures
            r.value() == fsub(self.value(), other.value()),
    {
        proof {
            use_type_invariant(self);
            use_type_invariant(other);
        }
        field_sub(*self, *other)
    }

    /// The product of two elements.
    pub fn mul(&self, other: &FieldElement) -> (r: FieldElement)
        ensures
            r.value() == fmul(self.value(), other.value()),
    {
        proof {
            use_type_invariant(self);
            use_type_invariant(other);
        }
        field_mul(*self, *other)
    }

    /// The square of the element.
    pub fn square(&self) -> (r: FieldElement)
        ensures
            r.value() == fmul(self.value(), self.value()),
    {
        proof {
            use_type_invariant(self);
        }
        field_square(*self)
    }

    /// The power of the element to the exponent with the given limbs, least
    /// significant first.
    pub fn pow(&self, exp: &[u64; 4]) -> (r: FieldElement)
        ensures
            r.value() == fpow(self.value(), limbs_value(exp[0], exp[1], exp[2], exp[3])),
    {
        proof {
            use_type_invariant(self);
        }
        field_pow(*self, exp)
    }

    /// Whether the element is zero, a square, or neither.
    pub fn legendre(&self) -> (r: Legendre)
        ensures
            r == legendre_symbol(self.value()),
    {
        proof {
            use_type_invariant(self);
        }
        field_legendre(*self)
    }
}

/// Addition in the field, `Fp::add` of `ark_ff`: the canonical representative
/// of the result is the sum of the two representatives, reduced by the
/// modulus. Here and below, the limbs of an argument must be below the
/// modulus, so that the conversion into the outside field does not fail.
#[verifier::external_body]
pub(crate) fn field_add(a: FieldElement, b: FieldElement) -> (r: FieldElement)
    requires
        a.wf(),
        b.wf(),
    ensures
        r.wf(),
        r.value() == fadd(a.value(), b.value()),
{
    let x = Fr::from_bigint(BigInt::new([a.l0, a.l1, a.l2, a.l3])).unwrap();
    let y = Fr::from_bigint(BigInt::new([b.l0, b.l1, b.l2, b.l3])).unwrap();
    let z = (x + y).into_bigint().0;
    FieldElement { l0: z[0], l1: z[1], l2: z[2], l3: z[3] }
}

/// Subtraction in the field, `Fp::sub` of `ark_ff`: the canonical
/// representative of the result is the difference of the two
/// representatives, reduced by the modulus.
#[verifier::external_body]
pub(crate) fn field_sub(a: FieldElement, b: FieldElement) -> (r: FieldElement)
    requires
        a.wf(),
        b.wf(),
    ensures
        r.wf(),
        r.value() == fsub(a.value(), b.value()),
{
    let x = Fr::from_bigint(BigInt::new([a.l0, a.l1, a.l2, a.l3])).unwrap();
    let y = Fr::from_bigint(BigInt::new([b.l0, b.l1, b.l2, b.l3])).unwrap();
    let z = (x - y).into_bigint().0;
    FieldElement { l0: z[0], l1: z[1], l2: z[2], l3: z[3] }
}

/// Multiplication in the field, `Fp::mul` of `ark_ff`: the canonical
/// representative of the result is the product of the two representatives,
/// reduced by the modulus.
#[verifier::external_body]
pub(crate) fn field_mul(a: FieldElement, b: FieldElement) -> (r: FieldElement)
    requires
        a.wf(),
        b.wf(),
    ensures
        r.wf(),
        r.value() == fmul(a.value(), b.value()),
{
    let x = Fr::from_bigint(BigInt::new([a.l0, a.l1, a.l2, a.l3])).unwrap();
    let y = Fr::from_bigint(BigInt::new([b.l0, b.l1, b.l2, b.l3])).unwrap();
    let z = (x * y).into_bigint().0;
    FieldElement { l0: z[0], l1: z[1], l2: z[2], l3: z[3] }
}

/// The square of an element, `Field::square` of `ark_ff`: the canonical
/// representative of the result is the square of the representative,
/// reduced by the modulus.
#[verifier::external_body]
pub(crate) fn field_square(a: FieldElement) -> (r: FieldElement)
    requires
        a.wf(),
    ensures
        r.wf(),
        r.value() == fmul(a.value(), a.value()),
{
    let x = Fr::from_bigint(BigInt::new([a.l0, a.l1, a.l2, a.l3])).unwrap();
    let z = x.square().into_bigint().0;
    FieldElement { l0: z[0], l1: z[1], l2: z[2], l3: z[3] }
}

/// A power of an element, `Field::pow` of `ark_ff`, the exponent given by
/// its limbs, least significant first: the canonical representative of the
/// result is the power of the representative, reduced by the modulus.
#[verifier::external_body]
pub(crate) fn field_pow(a: FieldElement, exp: &[u64; 4]) -> (r: FieldElement)
    requires
        a.wf(),
    ensures
        r.wf(),
        r.value() == fpow(a.value(), limbs_value(exp[0], exp[1], exp[2], exp[3])),
{
    let x = Fr::from_bigint(BigInt::new([a.l0, a.l1, a.l2, a.l3])).unwrap();
    let z = x.pow(exp).into_bigint().0;
    FieldElement { l0: z[0], l1: z[1], l2: z[2], l3: z[3] }
}

/// The Legendre symbol of an element, `Field::legendre` of `ark_ff`, which
/// goes by the power of the element to half the order of the field's
/// multiplicative group: zero, one, or anything else for a non-residue.
#[verifier::external_body]
pub(crate) fn field_legendre(a: FieldElement) -> (r: Legendre)
    requires
        a.wf(),
    ensures
        r == legendre_symbol(a.value()),
{
    let x = Fr::from_bigint(BigInt::new([a.l0, a.l1, a.l2, a.l3])).unwrap();
    match x.legendre() {
        LegendreSymbol::Zero => Legendre::Zero,
        LegendreSymbol::QuadraticResidue => Legendre::QuadraticResidue,
        LegendreSymbol::QuadraticNonResidue => Legendre::QuadraticNonResidue,
    }
}

/// A uniformly random element, `UniformRand::rand` of `ark_ff` for `Fr`:
/// whatever the generator yields, the element drawn is a canonical one.
#[verifier::external_body]
pub(crate) fn random_field_element(rng: &mut RngType) -> (r: FieldElement)
    ensures
        r.wf(),
{
    let z = Fr::rand(rng).into_bigint().0;
    FieldElement { l0: z[0], l1: z[1], l2: z[2], l3: z[3] }
}

/// What one draw of a field element yields from the stream of a seed at a
/// position in it, given in 32-bit words: the canonical representative of the
/// element, and the position after the draw.
pub uninterp spec fn seeded_draw(seed: Seq<u8>, position: u128) -> (nat, u128);

/// One draw of a field element from the ChaCha stream of `seed` at
/// `position`: `ChaCha12Rng::from_seed`, `set_word_pos`, `Fr::rand` and
/// `get_word_pos`. The stream is a function of the seed, so the element and
/// the position after it are functions of the seed and the position.
#[verifier::external_body]
pub(crate) fn draw_from_seed(seed: &[u8; 32], position: u128) -> (r: (FieldElement, u128))
    ensures
        r.0.wf(),
        r.0.value() == seeded_draw(seed@, position).0,
        r.1 == seeded_draw(seed@, position).1,
{
    let mut rng = ChaCha12Rng::from_seed(*seed);
    rng.set_word_pos(position);
    let z = Fr::rand(&mut rng).into_bigint().0;
    (FieldElement { l0: z[0], l1: z[1], l2: z[2], l3: z[3] }, rng.get_word_pos())
}

/// A generator started from a seed, `SeedableRng::from_seed` of `rand`.
#[verifier::external_body]
pub(crate) fn rng_from_seed(seed: [u8; 32]) -> (r: RngType) {
    ChaCha12Rng::from_seed(seed)
}

/// A random seed, `Rng::gen` of `rand` at the type of a seed.
#[verifier::external_body]
pub(crate) fn random_seed(rng: &mut RngType) -> (r: [u8; 32]) {
    rng.gen::<[u8; 32]>()
}

/// A random 128-bit block, `Rng::gen` of `rand` at `u128`.
#[verifier::external_body]
pub(crate) fn random_block(rng: &mut RngType) -> (r: u128) {
    rng.gen::<u128>()
}

} // verus!
