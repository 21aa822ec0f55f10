use ark_bn254::Fr;
use ark_ff::PrimeField;
use ark_ff::UniformRand;
use cosnark_core::field::FieldElement;
use cosnark_core::field::MODULUS_BIT_SIZE;
use cosnark_core::field::MODULUS_LIMB_0;
use cosnark_core::field::MODULUS_LIMB_1;
use cosnark_core::field::MODULUS_LIMB_2;
use cosnark_core::field::MODULUS_LIMB_3;
use cosnark_core::rep3::expand_seed;
use rand::SeedableRng;
use rand_chacha::ChaCha12Rng;

fn modulus_minus_one() -> FieldElement {
    FieldElement::from_limbs([MODULUS_LIMB_0 - 1, MODULUS_LIMB_1, MODULUS_LIMB_2, MODULUS_LIMB_3])
        .unwrap()
}

#[test]
fn field_element_from_u64_keeps_the_number() {
    let five = FieldElement::from_u64(5);
    assert_eq!(five.to_limbs(), [5, 0, 0, 0]);
    assert_eq!(FieldElement::zero().to_limbs(), [0, 0, 0, 0]);
    assert_eq!(FieldElement::one().to_limbs(), [1, 0, 0, 0]);
}

#[test]
fn modulus_limbs_are_those_of_the_outside_field() {
    assert_eq!(
        Fr::MODULUS.0,
        [MODULUS_LIMB_0, MODULUS_LIMB_1, MODULUS_LIMB_2, MODULUS_LIMB_3]
    );
    assert_eq!(Fr::MODULUS_BIT_SIZE as usize, MODULUS_BIT_SIZE);
}

#[test]
fn from_limbs_accepts_only_numbers_below_the_modulus() {
    assert!(FieldElement::from_limbs([
        MODULUS_LIMB_0,
        MODULUS_LIMB_1,
        MODULUS_LIMB_2,
        MODULUS_LIMB_3
    ])
    .is_none());
    assert!(FieldElement::from_limbs([u64::MAX, u64::MAX, u64::MAX, u64::MAX]).is_none());
    assert!(FieldElement::from_limbs([0, 0, 0, MODULUS_LIMB_3 + 1]).is_none());
    assert!(FieldElement::from_limbs([
        MODULUS_LIMB_0 + 1,
        MODULUS_LIMB_1,
        MODULUS_LIMB_2,
        MODULUS_LIMB_3
    ])
    .is_none());
    let below = modulus_minus_one();
    assert_eq!(
        below.to_limbs(),
        [MODULUS_LIMB_0 - 1, MODULUS_LIMB_1, MODULUS_LIMB_2, MODULUS_LIMB_3]
    );
    assert!(FieldElement::from_limbs([u64::MAX, u64::MAX, u64::MAX, MODULUS_LIMB_3 - 1]).is_some());
}

#[test]
fn addition_wraps_at_the_modulus() {
    let a = FieldElement::from_u64(7);
    let b = FieldElement::from_u64(11);
    assert_eq!(a.add(&b), FieldElement::from_u64(18));
    let top = modulus_minus_one();
    assert_eq!(top.add(&FieldElement::from_u64(2)), FieldElement::one());
    assert_eq!(top.add(&FieldElement::one()), FieldElement::zero());
}

#[test]
fn subtraction_wraps_at_zero() {
    let a = FieldElement::from_u64(7);
    let b = FieldElement::from_u64(11);
    assert_eq!(b.sub(&a), FieldElement::from_u64(4));
    assert_eq!(FieldElement::zero().sub(&FieldElement::one()), modulus_minus_one());
    let expected = FieldElement::from_limbs([
        MODULUS_LIMB_0 - 4,
        MODULUS_LIMB_1,
        MODULUS_LIMB_2,
        MODULUS_LIMB_3,
    ])
    .unwrap();
    assert_eq!(a.sub(&b), expected);
}

#[test]
fn multiplication_reduces_by_the_modulus() {
    let a = FieldElement::from_u64(6);
    let b = FieldElement::from_u64(7);
    assert_eq!(a.mul(&b), FieldElement::from_u64(42));
    let top = modulus_minus_one();
    assert_eq!(top.mul(&top), FieldElement::one());
    let big = FieldElement::from_u64(u64::MAX);
    assert_eq!(big.mul(&big).to_limbs(), [1, u64::MAX - 1, 0, 0]);
}

#[test]
fn bits_are_read_from_the_least_significant_end() {
    let f = FieldElement::from_limbs([0b101, 1 << 63, 1, 0]).unwrap();
    assert!(f.get_bit(0));
    assert!(!f.get_bit(1));
    assert!(f.get_bit(2));
    assert!(!f.get_bit(63));
    assert!(!f.get_bit(64));
    assert!(f.get_bit(127));
    assert!(f.get_bit(128));
    assert!(!f.get_bit(129));
    assert!(!f.get_bit(253));
}

#[test]
fn a_seed_expands_to_the_draws_of_its_generator() {
    let seed = [42u8; 32];
    let expanded = expand_seed(&seed, 9);
    assert_eq!(expanded.len(), 9);
    let mut rng = ChaCha12Rng::from_seed(seed);
    for element in expanded.iter() {
        let drawn = Fr::rand(&mut rng);
        assert_eq!(element.to_limbs(), drawn.into_bigint().0);
    }
}

#[test]
fn a_seed_always_expands_to_the_same_elements() {
    let seed = [3u8; 32];
    let long = expand_seed(&seed, 6);
    let short = expand_seed(&seed, 4);
    assert_eq!(&long[..4], &short[..]);
    let other = expand_seed(&[4u8; 32], 4);
    assert_ne!(other, short);
    assert!(expand_seed(&seed, 0).is_empty());
}
