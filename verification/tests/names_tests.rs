use cosnark_core::names::name_order;
use cosnark_core::names::NameOrder;
use cosnark_core::names::NamedMap;

fn names_of(map: &NamedMap<Vec<u8>>) -> Vec<String> {
    let mut names = Vec::new();
    for i in 0..map.len() {
        names.push(map.name_at(i).clone());
    }
    names
}

#[test]
fn names_are_ordered_by_their_bytes() {
    assert_eq!(name_order("a", "b"), NameOrder::Before);
    assert_eq!(name_order("b", "a"), NameOrder::After);
    assert_eq!(name_order("ab", "ab"), NameOrder::Same);
    assert_eq!(name_order("a", "ab"), NameOrder::Before);
    assert_eq!(name_order("ab", "a"), NameOrder::After);
    assert_eq!(name_order("", ""), NameOrder::Same);
    assert_eq!(name_order("", "a"), NameOrder::Before);
    assert_eq!(name_order("Z", "a"), NameOrder::Before);
    assert_eq!(name_order("in[10]", "in[2]"), NameOrder::Before);
    assert_eq!(name_order("z", "é"), NameOrder::Before);
}

#[test]
fn name_order_agrees_with_the_order_of_strings() {
    let names = ["", "a", "aa", "ab", "b", "B", "in[0]", "in[10]", "in[2]", "zeta", "é", "日本"];
    for a in names.iter() {
        for b in names.iter() {
            let expected = if a < b {
                NameOrder::Before
            } else if a == b {
                NameOrder::Same
            } else {
                NameOrder::After
            };
            assert_eq!(name_order(a, b), expected);
        }
    }
}

#[test]
fn a_map_is_walked_in_the_order_of_its_names() {
    let mut map: NamedMap<Vec<u8>> = NamedMap::new();
    assert_eq!(map.len(), 0);
    assert!(map.insert("delta".to_string(), vec![4]).is_none());
    assert!(map.insert("alpha".to_string(), vec![1]).is_none());
    assert!(map.insert("charlie".to_string(), vec![3]).is_none());
    assert!(map.insert("bravo".to_string(), vec![2]).is_none());
    assert_eq!(map.len(), 4);
    assert_eq!(names_of(&map), vec!["alpha", "bravo", "charlie", "delta"]);
    assert_eq!(map.value_at(0), &vec![1u8]);
    assert_eq!(map.value_at(3), &vec![4u8]);
    assert_eq!(map.position("charlie"), Some(2));
    assert_eq!(map.position("echo"), None);
}

#[test]
fn insert_replaces_the_value_of_a_name() {
    let mut map: NamedMap<Vec<u8>> = NamedMap::new();
    map.insert("x".to_string(), vec![1]);
    map.insert("y".to_string(), vec![2]);
    assert_eq!(map.insert("x".to_string(), vec![9]), Some(vec![1]));
    assert_eq!(map.len(), 2);
    assert_eq!(map.get("x"), Some(&vec![9u8]));
    assert_eq!(map.get("y"), Some(&vec![2u8]));
    assert_eq!(map.get("z"), None);
    assert!(map.contains_key("y"));
    assert!(!map.contains_key("z"));
}

#[test]
fn remove_and_pop_take_entries_out() {
    let mut map: NamedMap<Vec<u8>> = NamedMap::new();
    map.insert("b".to_string(), vec![2]);
    map.insert("a".to_string(), vec![1]);
    map.insert("c".to_string(), vec![3]);
    assert_eq!(map.remove("b"), Some(vec![2]));
    assert_eq!(map.remove("b"), None);
    assert_eq!(names_of(&map), vec!["a", "c"]);
    assert_eq!(map.pop_last(), Some(("c".to_string(), vec![3])));
    assert_eq!(map.pop_last(), Some(("a".to_string(), vec![1])));
    assert_eq!(map.pop_last(), None);
    assert_eq!(map.len(), 0);
}

#[test]
fn key_sets_are_compared() {
    let mut small: NamedMap<Vec<u8>> = NamedMap::new();
    small.insert("a".to_string(), vec![]);
    let mut large: NamedMap<Vec<u8>> = NamedMap::new();
    large.insert("a".to_string(), vec![1]);
    large.insert("b".to_string(), vec![2]);
    let mut apart: NamedMap<Vec<u8>> = NamedMap::new();
    apart.insert("c".to_string(), vec![3]);
    let empty: NamedMap<Vec<u8>> = NamedMap::new();
    assert!(!small.has_key_outside(&large));
    assert!(large.has_key_outside(&small));
    assert!(!empty.has_key_outside(&small));
    assert!(small.has_key_outside(&empty));
    assert!(small.shares_key_with(&large));
    assert!(large.shares_key_with(&small));
    assert!(!apart.shares_key_with(&large));
    assert!(!empty.shares_key_with(&large));
}
