use cosnark_core::field::FieldElement;
use cosnark_core::input::merge_columns;
use cosnark_core::input::merge_maybe_shares;
use cosnark_core::input::resolve_column;
use cosnark_core::input::MergeError;
use cosnark_core::input::SerializeableSharedRep3Input;
use cosnark_core::rep3::combine_field_elements;
use cosnark_core::rep3::share_field_elements;
use cosnark_core::rep3::share_maybe_field_elements;
use cosnark_core::rep3::MaybeRep3ShareVecType;
use cosnark_core::rep3::Rep3PrimeFieldShare;
use cosnark_core::rep3::Rep3ShareVecType;
use cosnark_core::shared_input::SharedInput;
use rand::SeedableRng;
use rand_chacha::ChaCha12Rng;

fn elements(values: &[u64]) -> Vec<FieldElement> {
    values.iter().map(|v| FieldElement::from_u64(*v)).collect()
}

fn maybe(values: &[Option<u64>]) -> Vec<Option<FieldElement>> {
    values.iter().map(|v| v.map(FieldElement::from_u64)).collect()
}

fn share(a: u64, b: u64) -> Rep3PrimeFieldShare {
    Rep3PrimeFieldShare { a: FieldElement::from_u64(a), b: FieldElement::from_u64(b) }
}

fn some_shares(values: &[Option<u64>]) -> Vec<Option<Rep3PrimeFieldShare>> {
    values.iter().map(|v| v.map(|x| share(x, x + 1))).collect()
}

fn with_public(name: &str, values: &[u64]) -> SerializeableSharedRep3Input {
    let mut input = SerializeableSharedRep3Input::new();
    input.public_inputs.insert(name.to_string(), elements(values));
    input
}

fn with_shared(name: &str, values: &[u64]) -> SerializeableSharedRep3Input {
    let mut input = SerializeableSharedRep3Input::new();
    input
        .shared_inputs
        .insert(name.to_string(), Rep3ShareVecType::Additive(elements(values)));
    input
}

fn with_maybe_public(name: &str, values: &[Option<u64>]) -> SerializeableSharedRep3Input {
    let mut input = SerializeableSharedRep3Input::new();
    input.maybe_public_inputs.insert(name.to_string(), maybe(values));
    input
}

fn with_maybe_shared(name: &str, values: &[Option<u64>]) -> SerializeableSharedRep3Input {
    let mut input = SerializeableSharedRep3Input::new();
    input
        .maybe_shared_inputs
        .insert(name.to_string(), MaybeRep3ShareVecType::Replicated(some_shares(values)));
    input
}

#[test]
fn equal_public_inputs_merge_into_one_entry() {
    let merged = with_public("x", &[1, 2, 3]).merge(with_public("x", &[1, 2, 3])).ok().unwrap();
    assert_eq!(merged.public_inputs.len(), 1);
    assert_eq!(merged.public_inputs.get("x"), Some(&elements(&[1, 2, 3])));
    assert_eq!(merged.shared_inputs.len(), 0);
    assert_eq!(merged.maybe_public_inputs.len(), 0);
    assert_eq!(merged.maybe_shared_inputs.len(), 0);
}

#[test]
fn different_public_inputs_do_not_merge() {
    let result = with_public("x", &[1, 2, 3]).merge(with_public("x", &[9, 9, 9]));
    assert_eq!(result.err(), Some(MergeError::PublicInputMismatch));
    let result = with_public("x", &[1, 2, 3]).merge(with_public("x", &[1, 2]));
    assert_eq!(result.err(), Some(MergeError::PublicInputMismatch));
}

#[test]
fn a_public_input_of_the_second_must_be_in_the_first() {
    let result = with_public("x", &[1]).merge(with_public("y", &[1]));
    assert_eq!(result.err(), Some(MergeError::PublicInputMissing));
    let merged = with_public("x", &[1]).merge(SerializeableSharedRep3Input::new());
    assert_eq!(merged.ok().unwrap().public_inputs.len(), 1);
    let result = SerializeableSharedRep3Input::new().merge(with_public("x", &[1]));
    assert_eq!(result.err(), Some(MergeError::PublicInputMissing));
}

#[test]
fn a_missing_public_input_is_reported_before_a_mismatch() {
    let mut first = with_public("a", &[1]);
    first.public_inputs.insert("b".to_string(), elements(&[2]));
    let mut second = with_public("a", &[5]);
    second.public_inputs.insert("c".to_string(), elements(&[3]));
    assert_eq!(first.merge(second).err(), Some(MergeError::PublicInputMissing));
}

#[test]
fn partly_known_public_inputs_are_merged_index_by_index() {
    let first = with_maybe_public("m", &[Some(1), None, None, None]);
    let second = with_maybe_public("m", &[None, None, Some(3), None]);
    let merged = first.merge(second).ok().unwrap();
    assert_eq!(
        merged.maybe_public_inputs.get("m"),
        Some(&maybe(&[Some(1), None, Some(3), None]))
    );
    assert_eq!(merged.public_inputs.len(), 0);
}

#[test]
fn a_partly_known_public_input_stated_twice_at_an_index_does_not_merge() {
    let first = with_maybe_public("m", &[Some(1), None]);
    let second = with_maybe_public("m", &[Some(1), Some(2)]);
    assert_eq!(first.merge(second).err(), Some(MergeError::MaybePublicConflict));
}

#[test]
fn a_partly_known_public_input_must_be_staged_on_both_sides() {
    let first = with_maybe_public("m", &[Some(1)]);
    let second = with_maybe_public("n", &[Some(1)]);
    assert_eq!(first.merge(second).err(), Some(MergeError::MaybePublicMissing));
    let first = with_maybe_public("m", &[Some(1)]);
    let result = first.merge(SerializeableSharedRep3Input::new());
    assert_eq!(result.err(), Some(MergeError::MaybePublicMissing));
    let first = SerializeableSharedRep3Input::new();
    let result = first.merge(with_maybe_public("m", &[Some(1)]));
    assert_eq!(result.err(), Some(MergeError::MaybePublicMissing));
}

#[test]
fn a_partly_known_public_input_must_not_be_a_public_input() {
    let mut first = with_public("x", &[1]);
    first.maybe_public_inputs.insert("x".to_string(), maybe(&[None]));
    let mut second = with_public("x", &[1]);
    second.maybe_public_inputs.insert("x".to_string(), maybe(&[Some(1)]));
    assert_eq!(first.merge(second).err(), Some(MergeError::PublicAndMaybePublic));
    let first = with_public("x", &[1]);
    let second = with_maybe_public("x", &[Some(1)]);
    assert_eq!(first.merge(second).err(), Some(MergeError::PublicAndMaybePublic));
}

#[test]
fn columns_of_different_length_merge_over_their_common_indices() {
    let mine = maybe(&[Some(1), None, None]);
    let theirs = maybe(&[None, Some(2)]);
    assert_eq!(merge_columns(&mine, &theirs), Some(maybe(&[Some(1), Some(2)])));
    assert_eq!(merge_columns(&theirs, &mine), Some(maybe(&[Some(1), Some(2)])));
    assert_eq!(merge_columns(&mine, &mine), None);
    let nothing: Vec<Option<FieldElement>> = vec![];
    assert_eq!(merge_columns(&mine, &nothing), Some(vec![]));
}

#[test]
fn a_column_resolves_when_every_index_is_known() {
    assert_eq!(resolve_column(&maybe(&[Some(1), Some(2)])), Some(elements(&[1, 2])));
    assert_eq!(resolve_column(&maybe(&[Some(1), None])), None);
    let nothing: Vec<Option<FieldElement>> = vec![];
    assert_eq!(resolve_column(&nothing), Some(vec![]));
}

#[test]
fn shared_inputs_of_both_sides_are_united() {
    let merged = with_shared("a", &[1]).merge(with_shared("b", &[2, 3])).ok().unwrap();
    assert_eq!(merged.shared_inputs.len(), 2);
    assert!(matches!(
        merged.shared_inputs.get("a"),
        Some(Rep3ShareVecType::Additive(v)) if *v == elements(&[1])
    ));
    assert!(matches!(
        merged.shared_inputs.get("b"),
        Some(Rep3ShareVecType::Additive(v)) if *v == elements(&[2, 3])
    ));
}

#[test]
fn a_shared_input_stated_twice_does_not_merge() {
    let result = with_shared("a", &[1]).merge(with_shared("a", &[1]));
    assert_eq!(result.err(), Some(MergeError::SharedInputDuplicate));
}

#[test]
fn a_shared_input_must_not_be_a_public_input() {
    let first = with_public("a", &[1]);
    let second = with_shared("a", &[1]);
    assert_eq!(first.merge(second).err(), Some(MergeError::SharedAndPublic));
    let mut first = with_public("a", &[1]);
    first.shared_inputs.insert("a".to_string(), Rep3ShareVecType::Additive(elements(&[1])));
    let result = first.merge(SerializeableSharedRep3Input::new());
    assert_eq!(result.err(), Some(MergeError::SharedAndPublic));
}

#[test]
fn partly_known_shared_inputs_are_merged_and_stay_staged() {
    let first = with_maybe_shared("s", &[Some(1), None]);
    let second = with_maybe_shared("s", &[None, Some(2)]);
    let merged = first.merge(second).ok().unwrap();
    assert_eq!(merged.shared_inputs.len(), 0);
    assert!(matches!(
        merged.maybe_shared_inputs.get("s"),
        Some(MaybeRep3ShareVecType::Replicated(v)) if *v == some_shares(&[Some(1), Some(2)])
    ));
}

#[test]
fn partly_known_shared_inputs_must_have_the_same_names() {
    let first = with_maybe_shared("s", &[Some(1)]);
    let second = with_maybe_shared("t", &[Some(1)]);
    assert_eq!(first.merge(second).err(), Some(MergeError::MaybeSharedKeyMismatch));
    let first = with_maybe_shared("s", &[Some(1)]);
    let result = first.merge(SerializeableSharedRep3Input::new());
    assert_eq!(result.err(), Some(MergeError::MaybeSharedKeyMismatch));
}

#[test]
fn partly_known_shared_inputs_must_be_of_one_form() {
    let first = with_maybe_shared("s", &[Some(1)]);
    let mut second = SerializeableSharedRep3Input::new();
    second
        .maybe_shared_inputs
        .insert("s".to_string(), MaybeRep3ShareVecType::Additive(maybe(&[None])));
    assert_eq!(first.merge(second).err(), Some(MergeError::ShareTypeMismatch));
    let a = MaybeRep3ShareVecType::Additive(maybe(&[Some(1), None]));
    let b = MaybeRep3ShareVecType::Additive(maybe(&[None, Some(2)]));
    assert!(matches!(
        merge_maybe_shares(&a, &b),
        Ok(MaybeRep3ShareVecType::Additive(v)) if v == maybe(&[Some(1), Some(2)])
    ));
    assert_eq!(merge_maybe_shares(&a, &a).err(), Some(MergeError::MaybeSharedConflict));
}

#[test]
fn a_partly_known_shared_input_stated_twice_at_an_index_does_not_merge() {
    let first = with_maybe_shared("s", &[Some(1), None]);
    let second = with_maybe_shared("s", &[Some(7), None]);
    assert_eq!(first.merge(second).err(), Some(MergeError::MaybeSharedConflict));
}

#[test]
fn merged_inputs_add_and_replace_entries() {
    let mut input: SharedInput<u8> = SharedInput::new();
    input.add_public_input("p".to_string(), elements(&[1]));
    input.add_public_input("p".to_string(), elements(&[2]));
    input.add_shared_input("s".to_string(), vec![7, 8]);
    assert_eq!(input.public_inputs.len(), 1);
    assert_eq!(input.public_inputs.get("p"), Some(&elements(&[2])));
    assert_eq!(input.shared_inputs.get("s"), Some(&vec![7u8, 8]));
    let copy = input.clone();
    assert_eq!(copy.public_inputs.get("p"), Some(&elements(&[2])));
    assert_eq!(copy.shared_inputs.get("s"), Some(&vec![7u8, 8]));
}

#[test]
fn merged_inputs_unite_their_shared_inputs() {
    let mut first: SharedInput<u8> = SharedInput::new();
    first.add_public_input("p".to_string(), elements(&[1]));
    first.add_shared_input("a".to_string(), vec![1]);
    let mut second: SharedInput<u8> = SharedInput::new();
    second.add_public_input("p".to_string(), elements(&[1]));
    second.add_shared_input("b".to_string(), vec![2]);
    let merged = first.merge(second).ok().unwrap();
    assert_eq!(merged.public_inputs.len(), 1);
    assert_eq!(merged.shared_inputs.len(), 2);
    assert_eq!(merged.shared_inputs.get("b"), Some(&vec![2u8]));
}

#[test]
fn merged_inputs_refuse_what_does_not_fit() {
    let mut first: SharedInput<u8> = SharedInput::new();
    first.add_shared_input("a".to_string(), vec![1]);
    let mut second: SharedInput<u8> = SharedInput::new();
    second.add_shared_input("a".to_string(), vec![2]);
    assert_eq!(first.merge(second).err(), Some(MergeError::SharedInputDuplicate));

    let mut first: SharedInput<u8> = SharedInput::new();
    first.add_public_input("a".to_string(), elements(&[1]));
    let mut second: SharedInput<u8> = SharedInput::new();
    second.add_shared_input("a".to_string(), vec![2]);
    assert_eq!(first.merge(second).err(), Some(MergeError::SharedAndPublic));

    let first: SharedInput<u8> = SharedInput::new();
    let mut second: SharedInput<u8> = SharedInput::new();
    second.add_public_input("p".to_string(), elements(&[1]));
    assert_eq!(first.merge(second).err(), Some(MergeError::PublicInputMissing));

    let mut first: SharedInput<u8> = SharedInput::new();
    first.add_public_input("p".to_string(), elements(&[1]));
    let mut second: SharedInput<u8> = SharedInput::new();
    second.add_public_input("p".to_string(), elements(&[2]));
    assert_eq!(first.merge(second).err(), Some(MergeError::PublicInputMismatch));
}

#[test]
fn three_sources_with_a_partition_of_one_column_resolve_it() {
    let column = [10u64, 20, 30, 40, 50, 60];
    let sources = vec![
        with_maybe_shared("c", &[Some(10), None, None, Some(40), None, None]),
        with_maybe_shared("c", &[None, Some(20), None, None, Some(50), None]),
        with_maybe_shared("c", &[None, None, Some(30), None, None, Some(60)]),
    ];
    let built = SharedInput::build_from_sources(sources).ok().unwrap();
    assert_eq!(built.public_inputs.len(), 0);
    assert_eq!(built.shared_inputs.len(), 1);
    let expected: Vec<Rep3PrimeFieldShare> = column.iter().map(|x| share(*x, *x + 1)).collect();
    assert_eq!(built.shared_inputs.get("c"), Some(&expected));
}

#[test]
fn real_shares_of_a_partitioned_column_resolve_and_reconstruct() {
    let mut rng = ChaCha12Rng::from_seed([5u8; 32]);
    let columns = [
        maybe(&[Some(1), None, None]),
        maybe(&[None, Some(2), None]),
        maybe(&[None, None, Some(3)]),
    ];
    let mut parties: Vec<Vec<SerializeableSharedRep3Input>> = vec![vec![], vec![], vec![]];
    for column in columns.iter() {
        let (s0, s1, s2) = share_maybe_field_elements(column, &mut rng);
        for (party, shares) in [s0, s1, s2].into_iter().enumerate() {
            let mut input = SerializeableSharedRep3Input::new();
            input
                .maybe_shared_inputs
                .insert("c".to_string(), MaybeRep3ShareVecType::Replicated(shares));
            parties[party].push(input);
        }
    }
    let mut built = Vec::new();
    for sources in parties {
        built.push(SharedInput::build_from_sources(sources).ok().unwrap());
    }
    let recovered = combine_field_elements(
        built[0].shared_inputs.get("c").unwrap(),
        built[1].shared_inputs.get("c").unwrap(),
        built[2].shared_inputs.get("c").unwrap(),
    );
    assert_eq!(recovered, Some(elements(&[1, 2, 3])));
}

#[test]
fn sources_that_overlap_at_an_index_do_not_build() {
    let sources = vec![
        with_maybe_shared("c", &[Some(10), None]),
        with_maybe_shared("c", &[Some(10), Some(20)]),
    ];
    let result = SharedInput::build_from_sources(sources);
    assert_eq!(result.err(), Some(MergeError::MaybeSharedConflict));
    let sources =
        vec![with_maybe_public("c", &[Some(10), None]), with_maybe_public("c", &[Some(10), Some(20)])];
    assert_eq!(
        SharedInput::build_from_sources(sources).err(),
        Some(MergeError::MaybePublicConflict)
    );
}

#[test]
fn an_index_that_no_source_states_is_still_unmerged() {
    let sources = vec![
        with_maybe_shared("c", &[Some(10), None, None]),
        with_maybe_shared("c", &[None, Some(20), None]),
    ];
    assert_eq!(SharedInput::build_from_sources(sources).err(), Some(MergeError::StillUnmerged));
    let sources = vec![with_maybe_public("c", &[None])];
    assert_eq!(SharedInput::build_from_sources(sources).err(), Some(MergeError::StillUnmerged));
}

#[test]
fn sources_gather_public_and_shared_inputs() {
    let mut rng = ChaCha12Rng::from_seed([6u8; 32]);
    let (shares, _, _) = share_field_elements(&elements(&[8, 9]), &mut rng);
    let mut first = with_public("p", &[1, 2]);
    first.shared_inputs.insert("s".to_string(), Rep3ShareVecType::Replicated(shares.clone()));
    first.maybe_public_inputs.insert("m".to_string(), maybe(&[Some(5), None]));
    let mut second = with_public("q", &[3]);
    second.public_inputs.insert("p".to_string(), elements(&[1, 2]));
    second.maybe_public_inputs.insert("m".to_string(), maybe(&[None, Some(6)]));
    let built = SharedInput::build_from_sources(vec![first, second]).ok().unwrap();
    assert_eq!(built.public_inputs.len(), 3);
    assert_eq!(built.public_inputs.get("p"), Some(&elements(&[1, 2])));
    assert_eq!(built.public_inputs.get("q"), Some(&elements(&[3])));
    assert_eq!(built.public_inputs.get("m"), Some(&elements(&[5, 6])));
    assert_eq!(built.shared_inputs.get("s"), Some(&shares));
    let nothing = SharedInput::build_from_sources(vec![]).ok().unwrap();
    assert_eq!(nothing.public_inputs.len() + nothing.shared_inputs.len(), 0);
}

#[test]
fn sources_refuse_what_does_not_fit() {
    let sources = vec![with_public("p", &[1]), with_public("p", &[2])];
    assert_eq!(
        SharedInput::build_from_sources(sources).err(),
        Some(MergeError::PublicInputMismatch)
    );
    let sources = vec![with_shared("s", &[1])];
    assert_eq!(
        SharedInput::build_from_sources(sources).err(),
        Some(MergeError::UnsupportedCombination)
    );
    let replicated = |name: &str| {
        let mut input = SerializeableSharedRep3Input::new();
        input
            .shared_inputs
            .insert(name.to_string(), Rep3ShareVecType::Replicated(vec![share(1, 2)]));
        input
    };
    let sources = vec![replicated("s"), replicated("s")];
    assert_eq!(
        SharedInput::build_from_sources(sources).err(),
        Some(MergeError::SharedInputDuplicate)
    );
    let sources = vec![with_maybe_public("m", &[None]), with_maybe_public("m", &[None, None])];
    assert_eq!(SharedInput::build_from_sources(sources).err(), Some(MergeError::LengthMismatch));
    let additive = |values: &[Option<u64>]| {
        let mut input = SerializeableSharedRep3Input::new();
        input
            .maybe_shared_inputs
            .insert("s".to_string(), MaybeRep3ShareVecType::Additive(maybe(values)));
        input
    };
    let sources = vec![additive(&[Some(1)]), additive(&[None])];
    assert_eq!(
        SharedInput::build_from_sources(sources).err(),
        Some(MergeError::UnsupportedCombination)
    );
    let sources = vec![additive(&[Some(1)])];
    assert_eq!(
        SharedInput::build_from_sources(sources).err(),
        Some(MergeError::UnsupportedCombination)
    );
}

#[test]
fn resolved_names_must_stand_for_one_thing() {
    let sources = vec![with_public("x", &[1]), with_maybe_public("x", &[Some(1)])];
    assert_eq!(
        SharedInput::build_from_sources(sources).err(),
        Some(MergeError::PublicAndMaybePublic)
    );
    let mut first = SerializeableSharedRep3Input::new();
    first.shared_inputs.insert("x".to_string(), Rep3ShareVecType::Replicated(vec![share(1, 2)]));
    let sources = vec![first, with_maybe_shared("x", &[Some(1)])];
    assert_eq!(
        SharedInput::build_from_sources(sources).err(),
        Some(MergeError::SharedAndMaybeShared)
    );
    let sources = vec![with_public("x", &[1]), with_maybe_shared("x", &[Some(1)])];
    assert_eq!(SharedInput::build_from_sources(sources).err(), Some(MergeError::SharedAndPublic));
    let mut first = SerializeableSharedRep3Input::new();
    first.shared_inputs.insert("x".to_string(), Rep3ShareVecType::Replicated(vec![share(1, 2)]));
    let sources = vec![first, with_public("x", &[1])];
    assert_eq!(SharedInput::build_from_sources(sources).err(), Some(MergeError::SharedAndPublic));
}

#[test]
fn default_inputs_state_nothing() {
    let input = SerializeableSharedRep3Input::default();
    assert_eq!(input.public_inputs.len(), 0);
    assert_eq!(input.maybe_public_inputs.len(), 0);
    assert_eq!(input.shared_inputs.len(), 0);
    assert_eq!(input.maybe_shared_inputs.len(), 0);
    let merged: SharedInput<u8> = SharedInput::default();
    assert_eq!(merged.public_inputs.len() + merged.shared_inputs.len(), 0);
    let both = SerializeableSharedRep3Input::default().merge(SerializeableSharedRep3Input::new());
    assert!(both.is_ok());
}

#[test]
fn merging_three_inputs_does_not_depend_on_the_grouping() {
    let make = |known: usize| {
        let mut column = vec![None; 3];
        column[known] = Some(known as u64 + 1);
        let mut input = with_maybe_public("m", &column);
        input
            .maybe_shared_inputs
            .insert("s".to_string(), MaybeRep3ShareVecType::Replicated(some_shares(&column)));
        input.shared_inputs.insert(
            format!("own{known}"),
            Rep3ShareVecType::Additive(elements(&[known as u64])),
        );
        input.public_inputs.insert("p".to_string(), elements(&[1]));
        input
    };
    let left = make(0).merge(make(1)).ok().unwrap().merge(make(2)).ok().unwrap();
    let right = make(0).merge(make(1).merge(make(2)).ok().unwrap()).ok().unwrap();
    for merged in [left, right] {
        assert_eq!(merged.public_inputs.get("p"), Some(&elements(&[1])));
        assert_eq!(merged.maybe_public_inputs.get("m"), Some(&maybe(&[Some(1), Some(2), Some(3)])));
        assert!(matches!(
            merged.maybe_shared_inputs.get("s"),
            Some(MaybeRep3ShareVecType::Replicated(v))
                if *v == some_shares(&[Some(1), Some(2), Some(3)])
        ));
        assert_eq!(merged.shared_inputs.len(), 3);
        assert!(merged.shared_inputs.contains_key("own0"));
        assert!(merged.shared_inputs.contains_key("own2"));
    }
}
