use cosnark_core::field::FieldElement;
use cosnark_core::field::MODULUS_BIT_SIZE;
use cosnark_core::garbler::decode_block;
use cosnark_core::garbler::decode_blocks;
use cosnark_core::garbler::GarblerError;
use cosnark_core::garbler::GateSink;
use cosnark_core::garbler::PartyID;
use cosnark_core::garbler::Rep3Garbler;
use cosnark_core::garbler::Transmission;
use cosnark_core::wire::and_queries;
use cosnark_core::wire::block_to_bytes;
use cosnark_core::wire::garble_and_gate;
use cosnark_core::wire::output_tweak;
use cosnark_core::wire::tweak2;
use cosnark_core::wire::HashQuery;
use cosnark_core::wire::WireMod2;
use sha3::Digest;
use sha3::Sha3_256;

const SEED: [u8; 32] = [9u8; 32];

fn toy_hash(query: &HashQuery) -> u128 {
    let mixed = query.label.rotate_left(17) ^ query.tweak.wrapping_mul(0x9e37_79b9_7f4a_7c15);
    mixed.wrapping_mul(0x2545_f491_4f6c_dd1d_0000_0000_0000_0001).rotate_right(29) ^ query.label
}

fn hashes4(queries: &[HashQuery; 4]) -> [u128; 4] {
    [toy_hash(&queries[0]), toy_hash(&queries[1]), toy_hash(&queries[2]), toy_hash(&queries[3])]
}

fn hashes2(queries: &[HashQuery; 2]) -> [u128; 2] {
    [toy_hash(&queries[0]), toy_hash(&queries[1])]
}

fn delta() -> WireMod2 {
    WireMod2::from_block(0x0123_4567_89ab_cdef_0f1e_2d3c_4b5a_6979)
}

/// An XOR of two inputs, an AND with a third, and the reveal of the result.
fn run_circuit(garbler: &mut Rep3Garbler, labels: [u128; 3]) -> (WireMod2, Transmission) {
    let a = WireMod2::from_block(labels[0]);
    let b = WireMod2::from_block(labels[1]);
    let c = WireMod2::from_block(labels[2]);
    let x = garbler.xor(&a, &b);
    let queries = garbler.and_queries(&x, &c);
    let out = garbler.and(&x, &c, &hashes4(&queries)).unwrap();
    let reveal = garbler.output_queries(&out);
    let sent = garbler.output_all_parties(&[hashes2(&reveal)]).unwrap();
    (out, sent)
}

#[test]
fn the_evaluator_cannot_garble() {
    assert_eq!(Rep3Garbler::new(PartyID::ID0, SEED).err(), Some(GarblerError::EvaluatorRole));
    assert_eq!(
        Rep3Garbler::new_with_delta(PartyID::ID0, SEED, delta()).err(),
        Some(GarblerError::EvaluatorRole)
    );
    assert!(GateSink::for_party(PartyID::ID0).is_none());
    assert!(matches!(GateSink::for_party(PartyID::ID1), Some(GateSink::Buffer(_))));
    assert!(matches!(GateSink::for_party(PartyID::ID2), Some(GateSink::Hash(_))));
}

#[test]
fn a_new_garbler_has_an_offset_of_colour_one() {
    let first = Rep3Garbler::new(PartyID::ID1, SEED).ok().unwrap();
    let second = Rep3Garbler::new(PartyID::ID2, SEED).ok().unwrap();
    assert_eq!(first.id(), PartyID::ID1);
    assert_eq!(second.id(), PartyID::ID2);
    assert_eq!(first.delta().color(), 1);
    assert_eq!(first.delta(), second.delta());
    let other = Rep3Garbler::new(PartyID::ID1, [1u8; 32]).ok().unwrap();
    assert_ne!(other.delta(), first.delta());
    assert_eq!(other.into_delta().color(), 1);
    let given = Rep3Garbler::new_with_delta(PartyID::ID2, SEED, delta()).ok().unwrap();
    assert_eq!(given.into_delta(), delta());
}

#[test]
fn blocks_are_spelt_from_the_least_significant_byte() {
    let bytes = block_to_bytes(0x0f0e_0d0c_0b0a_0908_0706_0504_0302_0100);
    assert_eq!(bytes, [0, 1, 2, 3, 4, 5, 6, 7, 8, 9, 10, 11, 12, 13, 14, 15]);
    assert_eq!(block_to_bytes(1)[0], 1);
    assert_eq!(block_to_bytes(u128::MAX), [255u8; 16]);
    assert_eq!(block_to_bytes(0x1234), 0x1234u128.to_le_bytes());
}

#[test]
fn tweaks_hold_the_index_in_their_upper_half() {
    assert_eq!(tweak2(0, 0), 0);
    assert_eq!(tweak2(1, 0), 1u128 << 64);
    assert_eq!(tweak2(3, 5), (3u128 << 64) + 5);
    assert_eq!(tweak2(u64::MAX, u64::MAX), u128::MAX);
    assert_eq!(output_tweak(2, 1), (2u128 << 64) + 1);
    assert_eq!(output_tweak(7, 0), 7u128 << 64);
}

#[test]
fn labels_add_by_exclusive_or() {
    let a = WireMod2::from_block(0b1100);
    let b = WireMod2::from_block(0b1010);
    assert_eq!(a.plus(&b).as_block(), 0b0110);
    assert_eq!(a.cmul(0), WireMod2::zero());
    assert_eq!(a.cmul(1), a);
    assert_eq!(a.cmul(2), WireMod2::zero());
    assert_eq!(a.cmul(3), a);
    assert_eq!(a.negate(), a);
    assert_eq!(a.color(), 0);
    assert_eq!(WireMod2::from_block(7).color(), 1);
}

#[test]
fn a_garbled_and_gate_opens_to_the_label_of_the_and() {
    let d = delta();
    let a0 = WireMod2::from_block(0xaaaa_0000_1111_2222_3333_4444_5555_6667);
    let b0 = WireMod2::from_block(0xbbbb_0000_9999_8888_7777_6666_5555_4444);
    for (a, b) in [(a0, b0), (b0, a0), (a0.plus(&d), b0), (a0, b0.plus(&d))] {
        let queries = and_queries(5, &a, &b, &d);
        assert_eq!(queries[0], HashQuery { label: a.val, tweak: 5u128 << 64 });
        assert_eq!(queries[1].label, a.val ^ d.val);
        assert_eq!(queries[2].label, b.val);
        assert_eq!(queries[3], HashQuery { label: b.val ^ d.val, tweak: 5u128 << 64 });
        let (gate0, gate1, out) = garble_and_gate(&a, &b, &d, &hashes4(&queries));
        for x in [false, true] {
            for y in [false, true] {
                let la = if x { a.val ^ d.val } else { a.val };
                let lb = if y { b.val ^ d.val } else { b.val };
                let ha = toy_hash(&HashQuery { label: la, tweak: 5u128 << 64 });
                let hb = toy_hash(&HashQuery { label: lb, tweak: 5u128 << 64 });
                let left = if la & 1 == 1 { ha ^ gate0 } else { ha };
                let right = if lb & 1 == 1 { hb ^ gate1 ^ la } else { hb };
                let expected = if x && y { out.val ^ d.val } else { out.val };
                assert_eq!(left ^ right, expected);
            }
        }
    }
}

#[test]
fn the_digest_of_one_garbler_is_the_hash_of_the_blocks_of_the_other() {
    let mut first = Rep3Garbler::new_with_delta(PartyID::ID1, SEED, delta()).ok().unwrap();
    let mut second = Rep3Garbler::new_with_delta(PartyID::ID2, SEED, delta()).ok().unwrap();
    let labels = [0x1111u128 << 64 | 0x2222, 0x3333u128 << 64 | 0x4445, 0x5555u128 << 64 | 0x6666];
    let (out1, sent1) = run_circuit(&mut first, labels);
    let (out2, sent2) = run_circuit(&mut second, labels);
    assert_eq!(out1, out2);
    let blocks = match sent1 {
        Transmission::Circuit(blocks) => blocks,
        Transmission::Digest(_) => panic!("the first garbler sends blocks"),
    };
    let digest = match sent2 {
        Transmission::Digest(digest) => digest,
        Transmission::Circuit(_) => panic!("the second garbler sends a digest"),
    };
    assert_eq!(blocks.len(), 4);
    let mut hasher = Sha3_256::new();
    for block in blocks.iter() {
        hasher.update(block);
    }
    let expected: [u8; 32] = hasher.finalize().into();
    assert_eq!(digest, expected);
    assert_ne!(digest, <[u8; 32]>::from(Sha3_256::digest([])));
}

#[test]
fn an_empty_circuit_is_sent_as_no_blocks_or_as_the_digest_of_nothing() {
    let mut first = Rep3Garbler::new(PartyID::ID1, SEED).ok().unwrap();
    let mut second = Rep3Garbler::new(PartyID::ID2, SEED).ok().unwrap();
    assert!(!first.is_sent());
    assert!(matches!(first.send_circuit(), Ok(Transmission::Circuit(blocks)) if blocks.is_empty()));
    assert!(first.is_sent());
    let nothing: [u8; 32] = Sha3_256::digest([]).into();
    assert!(matches!(second.send_circuit(), Ok(Transmission::Digest(digest)) if digest == nothing));
}

#[test]
fn the_blocks_of_a_circuit_are_those_of_its_gates_in_order() {
    let mut garbler = Rep3Garbler::new_with_delta(PartyID::ID1, SEED, delta()).ok().unwrap();
    let a = WireMod2::from_block(0x10);
    let b = WireMod2::from_block(0x21);
    garbler.add_wire_to_circuit(&a).unwrap();
    let queries = garbler.and_queries(&a, &b);
    assert_eq!(queries[0].tweak, 0);
    let hashes = hashes4(&queries);
    let (gate0, gate1, expected_out) = garble_and_gate(&a, &b, &delta(), &hashes);
    let out = garbler.and(&a, &b, &hashes).unwrap();
    assert_eq!(out, expected_out);
    assert_eq!(garbler.and_queries(&a, &b)[0].tweak, 1u128 << 64);
    let reveal = garbler.output_queries(&out);
    assert_eq!(reveal[0], HashQuery { label: out.val, tweak: 0 });
    assert_eq!(reveal[1], HashQuery { label: out.val ^ delta().val, tweak: 1 });
    garbler.output(&[100, 200]).unwrap();
    assert_eq!(garbler.output_queries(&out)[1].tweak, (1u128 << 64) + 1);
    garbler.add_bundle_to_circuit(&[a, b]).unwrap();
    garbler.add_block_to_circuit(77).unwrap();
    let blocks = match garbler.send_circuit().unwrap() {
        Transmission::Circuit(blocks) => blocks,
        Transmission::Digest(_) => panic!("the first garbler sends blocks"),
    };
    let expected: Vec<[u8; 16]> = [0x10, gate0, gate1, 100, 200, 0x10, 0x21, 77]
        .iter()
        .map(|block: &u128| block.to_le_bytes())
        .collect();
    assert_eq!(blocks, expected);
}

#[test]
fn nothing_is_added_to_a_circuit_that_was_sent() {
    let mut garbler = Rep3Garbler::new(PartyID::ID2, SEED).ok().unwrap();
    garbler.send_circuit().unwrap();
    let w = WireMod2::from_block(1);
    assert_eq!(garbler.and(&w, &w, &[0; 4]).err(), Some(GarblerError::CircuitSent));
    assert_eq!(garbler.output(&[0; 2]).err(), Some(GarblerError::CircuitSent));
    assert_eq!(garbler.constant(1).err(), Some(GarblerError::CircuitSent));
    assert_eq!(garbler.add_block_to_circuit(1).err(), Some(GarblerError::CircuitSent));
    assert_eq!(garbler.add_wire_to_circuit(&w).err(), Some(GarblerError::CircuitSent));
    assert_eq!(garbler.add_bundle_to_circuit(&[w]).err(), Some(GarblerError::CircuitSent));
    assert_eq!(garbler.output_evaluator(&[]).err(), Some(GarblerError::CircuitSent));
    assert_eq!(garbler.output_all_parties(&[]).err(), Some(GarblerError::CircuitSent));
    assert_eq!(garbler.output_to_id0_and_id1(&[]).err(), Some(GarblerError::CircuitSent));
    assert_eq!(garbler.send_circuit().err(), Some(GarblerError::CircuitSent));
}

#[test]
fn a_block_decodes_to_the_bit_of_its_label() {
    let zero = WireMod2::from_block(0xfeed_0000_0000_0000_0000_0000_0000_beef);
    let d = delta();
    assert_eq!(decode_block(&zero.val.to_le_bytes(), &zero, &d), Some(false));
    assert_eq!(decode_block(&(zero.val ^ d.val).to_le_bytes(), &zero, &d), Some(true));
    assert_eq!(decode_block(&d.val.to_le_bytes(), &zero, &d), None);
    assert_eq!(decode_block(&[0u8; 16], &zero, &d), None);
    assert_eq!(decode_block(&(zero.val ^ 1).to_le_bytes(), &zero, &d), None);
}

#[test]
fn outputs_are_read_back_after_the_circuit_was_sent() {
    let mut garbler = Rep3Garbler::new_with_delta(PartyID::ID1, SEED, delta()).ok().unwrap();
    let x = [WireMod2::from_block(0x1000), WireMod2::from_block(0x2001)];
    let replies = [x[0].val.to_le_bytes(), (x[1].val ^ delta().val).to_le_bytes()];
    assert_eq!(garbler.output_garbler(&x, &replies).err(), Some(GarblerError::CircuitNotSent));
    let queries = garbler.outputs_queries(&x).unwrap();
    assert_eq!(queries.len(), 2);
    assert_eq!(queries[1][0], HashQuery { label: 0x2001, tweak: 1u128 << 64 });
    assert_eq!(queries[1][1], HashQuery { label: 0x2001 ^ delta().val, tweak: (1u128 << 64) + 1 });
    let hashes: Vec<[u128; 2]> = queries.iter().map(hashes2).collect();
    let (sent, reads_back) = garbler.output_to_id0_and_id1(&hashes).unwrap();
    assert!(reads_back);
    assert!(matches!(sent, Transmission::Circuit(blocks) if blocks.len() == 4));
    assert_eq!(garbler.output_garbler(&x, &replies).ok(), Some(vec![false, true]));
    assert_eq!(garbler.output_garbler(&x[..1], &replies[..1]).ok(), Some(vec![false]));
    assert_eq!(garbler.output_garbler(&[], &[]).ok(), Some(vec![]));
    assert_eq!(
        garbler.output_garbler(&x, &replies[..1]).err(),
        Some(GarblerError::InvalidBlockCount)
    );
    let bad = [x[0].val.to_le_bytes(), [7u8; 16]];
    assert_eq!(garbler.output_garbler(&x, &bad).err(), Some(GarblerError::InvalidBlock));
    let three = [x[0], x[1], x[0]];
    let more = [replies[0], replies[1], replies[0]];
    assert_eq!(garbler.output_garbler(&three, &more).err(), Some(GarblerError::OutputNotRevealed));
}

#[test]
fn only_the_first_garbler_reads_back_what_goes_to_two_parties() {
    let mut second = Rep3Garbler::new(PartyID::ID2, SEED).ok().unwrap();
    let (sent, reads_back) = second.output_to_id0_and_id1(&[[1, 2]]).unwrap();
    assert!(!reads_back);
    assert!(matches!(sent, Transmission::Digest(_)));
    let mut again = Rep3Garbler::new(PartyID::ID2, SEED).ok().unwrap();
    let sent = again.output_all_parties(&[[1, 2]]).unwrap();
    let mut hasher = Sha3_256::new();
    hasher.update(1u128.to_le_bytes());
    hasher.update(2u128.to_le_bytes());
    let expected: [u8; 32] = hasher.finalize().into();
    assert!(matches!(sent, Transmission::Digest(digest) if digest == expected));
}

#[test]
fn a_wire_is_encoded_as_its_zero_label_and_the_label_of_its_bit() {
    let mut garbler = Rep3Garbler::new(PartyID::ID1, SEED).ok().unwrap();
    let d = garbler.delta();
    let (zero0, enc0) = garbler.encode_wire(0);
    let (zero1, enc1) = garbler.encode_wire(1);
    assert_eq!(enc0, zero0);
    assert_eq!(enc1, zero1.plus(&d));
    assert_ne!(zero0, zero1);
    let mut twin = Rep3Garbler::new(PartyID::ID2, SEED).ok().unwrap();
    assert_eq!(twin.encode_wire(0).0, zero0);
    let not = garbler.negate(&zero0);
    assert_eq!(not, zero0.plus(&d));
}

#[test]
fn a_constant_puts_its_label_into_the_circuit() {
    let mut garbler = Rep3Garbler::new(PartyID::ID1, SEED).ok().unwrap();
    let d = garbler.delta();
    let zero_of_one = garbler.constant(1).unwrap();
    let zero_of_zero = garbler.constant(0).unwrap();
    let blocks = match garbler.send_circuit().unwrap() {
        Transmission::Circuit(blocks) => blocks,
        Transmission::Digest(_) => panic!("the first garbler sends blocks"),
    };
    assert_eq!(blocks, vec![(zero_of_one.val ^ d.val).to_le_bytes(), zero_of_zero.val.to_le_bytes()]);
}

#[test]
fn a_field_element_is_encoded_bit_by_bit() {
    let mut garbler = Rep3Garbler::new(PartyID::ID2, SEED).ok().unwrap();
    let inputs = garbler.encode_field(FieldElement::from_u64(0b1011));
    assert_eq!(inputs.delta, garbler.delta());
    assert_eq!(inputs.garbler_wires.len(), MODULUS_BIT_SIZE);
    assert_eq!(inputs.evaluator_wires.len(), 254);
    for i in 0..254 {
        let bit = i < 4 && i != 2;
        let expected = if bit {
            inputs.garbler_wires[i].plus(&inputs.delta)
        } else {
            inputs.garbler_wires[i]
        };
        assert_eq!(inputs.evaluator_wires[i], expected);
    }
    assert_ne!(inputs.garbler_wires[0], inputs.garbler_wires[1]);
}

#[test]
fn the_sum_of_two_labels_is_the_label_of_the_exclusive_or() {
    let garbler = Rep3Garbler::new_with_delta(PartyID::ID1, SEED, delta()).ok().unwrap();
    let d = delta();
    let a = WireMod2::from_block(0x1234_5678);
    let b = WireMod2::from_block(0x9abc_def1);
    let zero = garbler.xor(&a, &b);
    for x in [false, true] {
        for y in [false, true] {
            let la = if x { a.plus(&d) } else { a };
            let lb = if y { b.plus(&d) } else { b };
            let expected = if x != y { zero.plus(&d) } else { zero };
            assert_eq!(la.plus(&lb), expected);
        }
    }
    let not = garbler.negate(&a);
    assert_eq!(not.plus(&d), a);
}

#[test]
fn blocks_are_decoded_whatever_the_state_of_a_garbler() {
    let d = WireMod2::from_block(0x10);
    let x = [WireMod2::from_block(0x1000), WireMod2::from_block(0x2001)];
    let replies = [x[0].val.to_le_bytes(), (x[1].val ^ d.val).to_le_bytes()];
    assert_eq!(decode_blocks(&x, &replies, &d).ok(), Some(vec![false, true]));
    let swapped = [(x[0].val ^ d.val).to_le_bytes(), x[1].val.to_le_bytes()];
    assert_eq!(decode_blocks(&x, &swapped, &d).ok(), Some(vec![true, false]));
    assert_eq!(decode_blocks(&[], &[], &d).ok(), Some(vec![]));
    assert_eq!(decode_blocks(&x, &replies[..1], &d).err(), Some(GarblerError::InvalidBlockCount));
    assert_eq!(decode_blocks(&x[..1], &replies, &d).err(), Some(GarblerError::InvalidBlockCount));
    let bad = [x[0].val.to_le_bytes(), [7u8; 16]];
    assert_eq!(decode_blocks(&x, &bad, &d).err(), Some(GarblerError::InvalidBlock));
    let none = WireMod2::zero();
    assert_eq!(decode_blocks(&x[..1], &replies[..1], &none).ok(), Some(vec![false]));
}

#[test]
fn gates_and_reveals_leave_the_generator_alone() {
    let mut plain = Rep3Garbler::new(PartyID::ID1, SEED).ok().unwrap();
    let mut busy = Rep3Garbler::new(PartyID::ID1, SEED).ok().unwrap();
    let w = WireMod2::from_block(0x77);
    busy.add_block_to_circuit(1).unwrap();
    busy.add_wire_to_circuit(&w).unwrap();
    busy.add_bundle_to_circuit(&[w, w]).unwrap();
    busy.and(&w, &w, &[1, 2, 3, 4]).unwrap();
    busy.output(&[5, 6]).unwrap();
    busy.output_evaluator(&[[7, 8]]).unwrap();
    assert_eq!(busy.encode_wire(0), plain.encode_wire(0));
    busy.send_circuit().unwrap();
    assert_eq!(busy.encode_wire(1), plain.encode_wire(1));
    let mut first = Rep3Garbler::new(PartyID::ID2, SEED).ok().unwrap();
    let mut second = Rep3Garbler::new(PartyID::ID2, SEED).ok().unwrap();
    first.output_all_parties(&[[1, 2]]).unwrap();
    second.output_to_id0_and_id1(&[[1, 2]]).unwrap();
    let untouched = Rep3Garbler::new(PartyID::ID2, SEED).ok().unwrap().encode_wire(1);
    assert_eq!(first.encode_wire(1), untouched);
    assert_eq!(second.encode_wire(1), untouched);
}
