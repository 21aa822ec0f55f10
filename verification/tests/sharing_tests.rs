use cosnark_core::field::FieldElement;
use cosnark_core::input::SerializeableSharedRep3Input;
use cosnark_core::rep3::additive_shares_of;
use cosnark_core::rep3::combine_additive;
use cosnark_core::rep3::combine_additive_vecs;
use cosnark_core::rep3::combine_field_element;
use cosnark_core::rep3::combine_field_elements;
use cosnark_core::rep3::expand_seed;
use cosnark_core::rep3::mask_field_element;
use cosnark_core::rep3::reconstruct;
use cosnark_core::rep3::replicated_shares_of;
use cosnark_core::rep3::share_field_elements;
use cosnark_core::rep3::share_field_elements_additive;
use cosnark_core::rep3::share_field_elements_additive_seeded;
use cosnark_core::rep3::share_field_elements_seeded;
use cosnark_core::rep3::share_maybe_field_elements;
use cosnark_core::rep3::share_maybe_field_elements_additive;
use cosnark_core::rep3::MaybeRep3ShareVecType;
use cosnark_core::rep3::Rep3PrimeFieldShare;
use cosnark_core::rep3::Rep3ShareVecType;
use cosnark_core::rep3::SeededType;
use cosnark_core::shamir::evaluate_poly;
use cosnark_core::shamir::share_with_coefficients;
use cosnark_core::shamir::ShamirPrimeFieldShare;
use cosnark_core::witness::SerializeableSharedRep3Witness;
use cosnark_core::witness::SharedWitness;
use cosnark_core::witness::Witness;
use rand::SeedableRng;
use rand_chacha::ChaCha12Rng;

fn elements(values: &[u64]) -> Vec<FieldElement> {
    values.iter().map(|v| FieldElement::from_u64(*v)).collect()
}

fn rng() -> ChaCha12Rng {
    ChaCha12Rng::from_seed([11u8; 32])
}

#[test]
fn masking_takes_both_masks_off() {
    let v = FieldElement::from_u64(100);
    let b = FieldElement::from_u64(30);
    let c = FieldElement::from_u64(20);
    assert_eq!(mask_field_element(v, b, c), FieldElement::from_u64(50));
    let wrapped = mask_field_element(FieldElement::from_u64(1), b, c);
    assert_eq!(wrapped.add(&FieldElement::from_u64(49)), FieldElement::zero());
}

#[test]
fn additive_shares_add_up_to_the_secret() {
    let v = FieldElement::from_u64(5);
    let b = FieldElement::from_u64(1_000_000);
    let c = FieldElement::from_u64(77);
    let shares = additive_shares_of(v, b, c);
    assert_eq!(shares[1], b);
    assert_eq!(shares[2], c);
    assert_ne!(shares[0], v);
    assert_eq!(combine_additive(shares[0], shares[1], shares[2]), v);
}

#[test]
fn replicated_shares_hold_the_part_of_the_party_before() {
    let v = FieldElement::from_u64(12);
    let b = FieldElement::from_u64(3);
    let c = FieldElement::from_u64(4);
    let shares = replicated_shares_of(v, b, c);
    let a = FieldElement::from_u64(5);
    assert_eq!(shares[0], Rep3PrimeFieldShare { a, b: c });
    assert_eq!(shares[1], Rep3PrimeFieldShare { a: b, b: a });
    assert_eq!(shares[2], Rep3PrimeFieldShare { a: c, b });
    assert_eq!(combine_field_element(shares[0], shares[1], shares[2]), v);
}

#[test]
fn replicated_sharing_reconstructs() {
    let secret = elements(&[0, 1, 2, 3, u64::MAX]);
    let (s0, s1, s2) = share_field_elements(&secret, &mut rng());
    assert_eq!(s0.len(), 5);
    assert_eq!(combine_field_elements(&s0, &s1, &s2), Some(secret.clone()));
    for i in 0..5 {
        assert_eq!(s0[i].b, s2[i].a);
        assert_eq!(s1[i].b, s0[i].a);
        assert_eq!(s2[i].b, s1[i].a);
    }
    assert_ne!(s1[0].a, s1[1].a);
    assert_eq!(combine_field_elements(&s0[..4], &s1, &s2), None);
}

#[test]
fn additive_sharing_reconstructs() {
    let secret = elements(&[9, 8, 7]);
    let (a, b, c) = share_field_elements_additive(&secret, &mut rng());
    assert_eq!(combine_additive_vecs(&a, &b, &c), Some(secret));
    assert_eq!(combine_additive_vecs(&a, &b[..2], &c), None);
}

#[test]
fn sharing_an_empty_vector_gives_empty_shares() {
    let (s0, s1, s2) = share_field_elements(&[], &mut rng());
    assert!(s0.is_empty() && s1.is_empty() && s2.is_empty());
    assert_eq!(combine_field_elements(&s0, &s1, &s2), Some(vec![]));
}

#[test]
fn seeded_additive_sharing_stores_two_seeds() {
    let secret = elements(&[10, 20, 30, 40]);
    let (s0, s1, s2) = share_field_elements_additive_seeded(&secret, &mut rng());
    let a = match &s0 {
        SeededType::Shares(a) => a.clone(),
        SeededType::Seed(_) => panic!("the first party holds a vector"),
    };
    let seed_b = match &s1 {
        SeededType::Seed(seed) => *seed,
        SeededType::Shares(_) => panic!("the second party holds a seed"),
    };
    let seed_c = match &s2 {
        SeededType::Seed(seed) => *seed,
        SeededType::Shares(_) => panic!("the third party holds a seed"),
    };
    assert_ne!(seed_b, seed_c);
    let b = expand_seed(&seed_b, 4);
    let c = expand_seed(&seed_c, 4);
    for i in 0..4 {
        assert_eq!(additive_shares_of(secret[i], b[i], c[i]), [a[i], b[i], c[i]]);
    }
    assert_eq!(combine_additive_vecs(&a, &b, &c), Some(secret));
    assert_eq!(s1.expand_vec(4), Some(b));
    assert_eq!(s0.expand_vec(4), Some(a));
    assert_eq!(s0.expand_vec(3), None);
}

#[test]
fn seeded_and_plain_sharing_expand_to_the_same_shares() {
    let secret = elements(&[5, 6, 7, 8, 9]);
    let (s0, s1, s2) = share_field_elements_seeded(&secret, &mut rng());
    let seed_b = match &s1.a {
        SeededType::Seed(seed) => *seed,
        SeededType::Shares(_) => panic!("the second party holds a seed"),
    };
    let seed_c = match &s2.a {
        SeededType::Seed(seed) => *seed,
        SeededType::Shares(_) => panic!("the third party holds a seed"),
    };
    let mask_b = expand_seed(&seed_b, 5);
    let mask_c = expand_seed(&seed_c, 5);
    let e0 = s0.expand_vec(5).unwrap();
    let e1 = s1.expand_vec(5).unwrap();
    let e2 = s2.expand_vec(5).unwrap();
    for i in 0..5 {
        let plain = replicated_shares_of(secret[i], mask_b[i], mask_c[i]);
        assert_eq!(e0[i], plain[0]);
        assert_eq!(e1[i], plain[1]);
        assert_eq!(e2[i], plain[2]);
    }
    assert_eq!(combine_field_elements(&e0, &e1, &e2), Some(secret));
    assert!(s0.expand_vec(4).is_none());
}

#[test]
fn share_rep3_reconstructs_in_every_form() {
    let secret = elements(&[1, 22, 333, 4444]);
    for (seeded, additive) in [(false, false), (false, true), (true, false), (true, true)] {
        let shares = SerializeableSharedRep3Input::share_rep3(&secret, &mut rng(), seeded, additive);
        for share in shares.iter() {
            let right_form = match share {
                Rep3ShareVecType::Replicated(_) => !seeded && !additive,
                Rep3ShareVecType::SeededReplicated(_) => seeded && !additive,
                Rep3ShareVecType::Additive(_) => !seeded && additive,
                Rep3ShareVecType::SeededAdditive(_) => seeded && additive,
            };
            assert!(right_form);
        }
        assert_eq!(reconstruct(&shares[0], &shares[1], &shares[2], 4), Some(secret.clone()));
        assert_eq!(reconstruct(&shares[0], &shares[1], &shares[2], 3), None);
    }
}

#[test]
fn no_share_is_made_for_an_unknown_element() {
    let input = vec![
        Some(FieldElement::from_u64(1)),
        None,
        Some(FieldElement::from_u64(3)),
        None,
    ];
    let (s0, s1, s2) = share_maybe_field_elements(&input, &mut rng());
    for i in 0..4 {
        match input[i] {
            Some(v) => {
                let recovered =
                    combine_field_element(s0[i].unwrap(), s1[i].unwrap(), s2[i].unwrap());
                assert_eq!(recovered, v);
                assert_eq!(s0[i].unwrap().b, s2[i].unwrap().a);
            }
            None => assert!(s0[i].is_none() && s1[i].is_none() && s2[i].is_none()),
        }
    }
    let (a, b, c) = share_maybe_field_elements_additive(&input, &mut rng());
    assert!(a[1].is_none() && b[1].is_none() && c[1].is_none());
    assert_eq!(
        combine_additive(a[2].unwrap(), b[2].unwrap(), c[2].unwrap()),
        FieldElement::from_u64(3)
    );
}

#[test]
fn maybe_share_rep3_picks_the_form() {
    let input = vec![Some(FieldElement::from_u64(1)), None];
    let additive = SerializeableSharedRep3Input::maybe_share_rep3(&input, &mut rng(), true);
    assert!(additive
        .iter()
        .all(|s| matches!(s, MaybeRep3ShareVecType::Additive(v) if v.len() == 2 && v[1].is_none())));
    let replicated = SerializeableSharedRep3Input::maybe_share_rep3(&input, &mut rng(), false);
    assert!(replicated
        .iter()
        .all(|s| matches!(s, MaybeRep3ShareVecType::Replicated(v) if v.len() == 2 && v[0].is_some())));
}

#[test]
fn a_polynomial_is_evaluated_from_its_constant_term_up() {
    let coeffs = elements(&[5, 3, 2]);
    assert_eq!(evaluate_poly(&coeffs, FieldElement::from_u64(0)), FieldElement::from_u64(5));
    assert_eq!(evaluate_poly(&coeffs, FieldElement::from_u64(1)), FieldElement::from_u64(10));
    assert_eq!(evaluate_poly(&coeffs, FieldElement::from_u64(4)), FieldElement::from_u64(49));
    assert_eq!(evaluate_poly(&[], FieldElement::from_u64(4)), FieldElement::zero());
}

#[test]
fn shamir_shares_are_the_values_at_the_parties_points() {
    let coeffs = elements(&[7, 2]);
    let shares = share_with_coefficients(&coeffs, 4);
    assert_eq!(shares, elements(&[9, 11, 13, 15]));
    assert!(share_with_coefficients(&coeffs, 0).is_empty());
}

#[test]
fn shamir_sharing_of_degree_one_is_recovered_from_two_shares() {
    let secret = elements(&[41, 42]);
    let shares = cosnark_core::shamir::share_field_elements(&secret, 1, 3, &mut rng());
    assert_eq!(shares.len(), 3);
    for j in 0..2 {
        assert_eq!(shares[0].len(), 2);
        // a line through the points 1 and 2 has the value 2 * y1 - y2 at 0
        let y1 = shares[0][j].a;
        let y2 = shares[1][j].a;
        let y3 = shares[2][j].a;
        assert_eq!(y1.add(&y1).sub(&y2), secret[j]);
        // and the points 2 and 3 lie on the same line
        assert_eq!(y2.add(&y2).sub(&y3), y1);
    }
    let constant = cosnark_core::shamir::share_field_elements(&secret, 0, 2, &mut rng());
    assert_eq!(constant[0][1], ShamirPrimeFieldShare { a: secret[1] });
    assert_eq!(constant[1][0], ShamirPrimeFieldShare { a: secret[0] });
}

#[test]
fn a_witness_is_split_after_its_public_values() {
    let values = elements(&[1, 10, 11, 100, 101, 102]);
    for (seeded, additive) in [(false, false), (false, true), (true, false), (true, true)] {
        let witness = Witness { values: values.clone() };
        let parts =
            SerializeableSharedRep3Witness::share_rep3(witness, 3, &mut rng(), seeded, additive);
        for part in parts.iter() {
            assert_eq!(part.public_inputs, values[..3].to_vec());
        }
        let recovered = reconstruct(&parts[0].witness, &parts[1].witness, &parts[2].witness, 3);
        assert_eq!(recovered, Some(values[3..].to_vec()));
    }
}

#[test]
fn a_witness_may_be_all_public_or_all_secret() {
    let values = elements(&[1, 2, 3]);
    let parts = SharedWitness::share_rep3(Witness { values: values.clone() }, 3, &mut rng());
    assert!(parts.iter().all(|p| p.public_inputs == values && p.witness.is_empty()));
    let parts = SharedWitness::share_rep3(Witness { values: values.clone() }, 0, &mut rng());
    assert!(parts.iter().all(|p| p.public_inputs.is_empty() && p.witness.len() == 3));
    assert_eq!(
        combine_field_elements(&parts[0].witness, &parts[1].witness, &parts[2].witness),
        Some(values)
    );
}

#[test]
fn a_shared_witness_becomes_a_replicated_serializable_one() {
    let values = elements(&[1, 2, 3, 4]);
    let parts = SharedWitness::share_rep3(Witness { values: values.clone() }, 1, &mut rng());
    let copy = parts[0].clone();
    let shares = parts[0].witness.clone();
    let serializable = SerializeableSharedRep3Witness::from_shared_witness(copy);
    assert_eq!(serializable.public_inputs, elements(&[1]));
    assert!(matches!(serializable.witness, Rep3ShareVecType::Replicated(v) if v == shares));
}

#[test]
fn a_witness_is_shamir_shared_among_any_number_of_parties() {
    let values = elements(&[1, 2, 50, 60]);
    let parts = SharedWitness::share_shamir(Witness { values: values.clone() }, 2, 1, 5, &mut rng());
    assert_eq!(parts.len(), 5);
    for part in parts.iter() {
        assert_eq!(part.public_inputs, elements(&[1, 2]));
        assert_eq!(part.witness.len(), 2);
    }
    for j in 0..2 {
        let y1 = parts[0].witness[j].a;
        let y2 = parts[1].witness[j].a;
        assert_eq!(y1.add(&y1).sub(&y2), values[2 + j]);
    }
    let none = SharedWitness::share_shamir(Witness { values }, 4, 1, 0, &mut rng());
    assert!(none.is_empty());
}

#[test]
fn an_empty_secret_part_gives_every_party_an_empty_witness() {
    let values = elements(&[1, 2, 3]);
    let parts = SharedWitness::share_shamir(Witness { values: values.clone() }, 3, 2, 4, &mut rng());
    assert_eq!(parts.len(), 4);
    for part in parts.iter() {
        assert_eq!(part.public_inputs, values);
        assert!(part.witness.is_empty());
    }
    let shares = cosnark_core::shamir::share_field_elements(&[], 2, 3, &mut rng());
    assert_eq!(shares.len(), 3);
    assert!(shares.iter().all(|party| party.is_empty()));
}
