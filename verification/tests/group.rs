use rocket_container::service::{flatten_with_keys, group};
use std::collections::HashMap;

#[test]
fn group_of_nothing_is_empty() {
    let map: HashMap<u32, Vec<u32>> = group(vec![]);
    assert!(map.is_empty());
}

#[test]
fn group_keeps_arrival_order_under_each_key() {
    let map = group(vec![(1, "a"), (2, "b"), (1, "c"), (3, "d"), (2, "e"), (1, "f")]);
    assert_eq!(map.len(), 3);
    assert_eq!(map.get(&1), Some(&vec!["a", "c", "f"]));
    assert_eq!(map.get(&2), Some(&vec!["b", "e"]));
    assert_eq!(map.get(&3), Some(&vec!["d"]));
    assert_eq!(map.get(&4), None);
}

#[test]
fn group_keeps_duplicates() {
    let map = group(vec![(7, 1), (7, 1), (7, 2), (7, 1)]);
    assert_eq!(map.len(), 1);
    assert_eq!(map.get(&7), Some(&vec![1, 1, 2, 1]));
}

#[test]
fn flatten_keeps_each_list_together_and_in_order() {
    let pairs = vec![(1, "a"), (2, "b"), (1, "c"), (3, "d"), (2, "e"), (1, "f")];
    let flat = flatten_with_keys(group(pairs.clone()));
    assert_eq!(flat.len(), pairs.len());
    for key in [1u32, 2, 3] {
        let expected: Vec<&str> = pairs.iter().filter(|p| p.0 == key).map(|p| p.1).collect();
        let places: Vec<usize> = (0..flat.len()).filter(|&i| flat[i].0 == key).collect();
        let found: Vec<&str> = places.iter().map(|&i| flat[i].1).collect();
        assert_eq!(found, expected);
        assert_eq!(places[places.len() - 1] - places[0] + 1, places.len());
    }
}

#[test]
fn flatten_of_nothing_is_empty() {
    let map: HashMap<u32, Vec<u8>> = HashMap::new();
    assert_eq!(flatten_with_keys(map), vec![]);
}

#[test]
fn regrouping_reproduces_the_grouping() {
    let pairs = vec![(5, 'x'), (9, 'y'), (5, 'z'), (5, 'x'), (0, 'w'), (9, 'v')];
    let once = group(pairs);
    let twice = group(flatten_with_keys(once.clone()));
    assert_eq!(twice, once);
    let thrice = group(flatten_with_keys(twice.clone()));
    assert_eq!(thrice, once);
}
