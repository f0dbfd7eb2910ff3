use bevy::prelude::Entity;
use scene_inspector::inspector::ui::hierarchy::{always_open, extend_with, sort_entities, Hierarchy};
use std::collections::{HashMap, HashSet};

fn links(pairs: &[(u64, u64)]) -> HashMap<u64, u64> {
    pairs.iter().copied().collect()
}

fn set(entities: &[u64]) -> HashSet<u64> {
    entities.iter().copied().collect()
}

#[test]
fn nothing_selected_opens_nothing() {
    let parents = links(&[(2, 1), (3, 2)]);
    assert_eq!(always_open(&parents, &[]), set(&[]));
}

#[test]
fn selected_root_opens_nothing() {
    let parents = links(&[(2, 1), (3, 2)]);
    assert_eq!(always_open(&parents, &[1]), set(&[]));
    assert_eq!(always_open(&parents, &[99]), set(&[]));
}

#[test]
fn selected_entity_opens_its_ancestors_and_not_itself() {
    let parents = links(&[(2, 1), (3, 2), (4, 3), (5, 1)]);
    assert_eq!(always_open(&parents, &[4]), set(&[3, 2, 1]));
    assert_eq!(always_open(&parents, &[3]), set(&[2, 1]));
    assert_eq!(always_open(&parents, &[5]), set(&[1]));
}

#[test]
fn several_selected_open_all_their_ancestors() {
    let parents = links(&[(2, 1), (3, 2), (4, 3), (11, 10), (12, 11)]);
    assert_eq!(always_open(&parents, &[4, 12]), set(&[3, 2, 1, 11, 10]));
    assert_eq!(always_open(&parents, &[3, 4]), set(&[3, 2, 1]));
    assert_eq!(always_open(&parents, &[4, 3]), set(&[3, 2, 1]));
    assert_eq!(always_open(&parents, &[4, 4]), set(&[3, 2, 1]));
}

#[test]
fn selected_ancestor_of_a_selected_entity_is_open() {
    let parents = links(&[(2, 1), (3, 2)]);
    assert_eq!(always_open(&parents, &[2, 3]), set(&[1, 2]));
}

#[test]
fn links_that_run_in_a_circle_end() {
    let parents = links(&[(1, 2), (2, 3), (3, 1)]);
    assert_eq!(always_open(&parents, &[1]), set(&[1, 2, 3]));
    let own = links(&[(7, 7)]);
    assert_eq!(always_open(&own, &[7]), set(&[7]));
    let tail = links(&[(1, 2), (2, 3), (3, 2)]);
    assert_eq!(always_open(&tail, &[1]), set(&[2, 3]));
}

#[test]
fn deep_chain_is_walked_to_the_root() {
    let mut parents = HashMap::new();
    for child in 1..500u64 {
        parents.insert(child, child - 1);
    }
    let open = always_open(&parents, &[499]);
    assert_eq!(open.len(), 499);
    assert!(open.contains(&0));
    assert!(open.contains(&498));
    assert!(!open.contains(&499));
}

#[test]
fn sort_puts_entities_in_rising_order() {
    assert_eq!(sort_entities(&[]), Vec::<u64>::new());
    assert_eq!(sort_entities(&[5]), vec![5]);
    assert_eq!(sort_entities(&[3, 1, 2]), vec![1, 2, 3]);
    assert_eq!(sort_entities(&[1, 2, 3]), vec![1, 2, 3]);
    assert_eq!(sort_entities(&[9, 9, 1, 9, 0]), vec![0, 1, 9, 9, 9]);
    assert_eq!(sort_entities(&[u64::MAX, 0, 1 << 32]), vec![0, 1 << 32, u64::MAX]);
}

#[test]
fn sort_by_bits_is_the_order_of_the_entities() {
    let bits: Vec<u64> = vec![
        (2u64 << 32) | 1,
        7,
        (1u64 << 32) | 9,
        0,
        (1u64 << 32) | 3,
        3,
        (2u64 << 32),
    ];
    let mut entities: Vec<Entity> = bits.iter().map(|b| Entity::from_bits(*b)).collect();
    entities.sort();
    let expected: Vec<u64> = entities.iter().map(|e| e.to_bits()).collect();
    assert_eq!(sort_entities(&bits), expected);
}

#[test]
fn extend_with_gives_the_rows_between() {
    let level = [10, 20, 30, 40, 50];
    assert_eq!(extend_with(&level, 20, 40), vec![20, 30, 40]);
    assert_eq!(extend_with(&level, 40, 20), vec![20, 30, 40]);
    assert_eq!(extend_with(&level, 10, 50), vec![10, 20, 30, 40, 50]);
    assert_eq!(extend_with(&level, 30, 40), vec![30, 40]);
}

#[test]
fn extend_with_one_row() {
    let level = [10, 20, 30];
    assert_eq!(extend_with(&level, 20, 20), vec![20]);
    assert_eq!(extend_with(&[7], 7, 7), vec![7]);
}

#[test]
fn extend_with_nothing_where_a_row_is_missing() {
    let level = [10, 20, 30];
    assert_eq!(extend_with(&level, 20, 99), Vec::<u64>::new());
    assert_eq!(extend_with(&level, 99, 20), Vec::<u64>::new());
    assert_eq!(extend_with(&level, 98, 99), Vec::<u64>::new());
    assert_eq!(extend_with(&[], 1, 2), Vec::<u64>::new());
}

#[test]
fn extend_with_goes_by_the_first_place_of_a_row() {
    let level = [10, 20, 10, 30, 20];
    assert_eq!(extend_with(&level, 10, 30), vec![10, 20, 10, 30]);
    assert_eq!(extend_with(&level, 20, 30), vec![20, 10, 30]);
    assert_eq!(extend_with(&level, 20, 10), vec![10, 20]);
}

#[test]
fn extend_with_agrees_with_positions_in_the_slice() {
    let level: Vec<u64> = vec![4, 8, 15, 16, 23, 42];
    for from in [4u64, 8, 15, 16, 23, 42, 99] {
        for to in [4u64, 8, 15, 16, 23, 42, 99] {
            let a = level.iter().position(|e| *e == from);
            let b = level.iter().position(|e| *e == to);
            let expected: Vec<u64> = match (a, b) {
                (Some(a), Some(b)) => level[a.min(b)..=a.max(b)].to_vec(),
                _ => Vec::new(),
            };
            assert_eq!(extend_with(&level, from, to), expected);
        }
    }
}

#[test]
fn show_sorts_the_roots_and_opens_the_ancestors() {
    let parents = links(&[(2, 1), (3, 2), (6, 5)]);
    let shown = Hierarchy::show(&parents, &[5, 1, 4], &[3]);
    assert_eq!(shown.roots, vec![1, 4, 5]);
    assert_eq!(shown.always_open, set(&[1, 2]));
}

#[test]
fn row_without_children_is_shut() {
    let parents = links(&[(2, 1), (3, 2)]);
    let shown = Hierarchy::show(&parents, &[1], &[3]);
    assert_eq!(shown.entity_ui(3, false), Some(false));
    assert_eq!(shown.entity_ui(1, false), Some(false));
}

#[test]
fn row_above_a_selected_one_is_open() {
    let parents = links(&[(2, 1), (3, 2)]);
    let shown = Hierarchy::show(&parents, &[1], &[3]);
    assert_eq!(shown.entity_ui(1, true), Some(true));
    assert_eq!(shown.entity_ui(2, true), Some(true));
}

#[test]
fn other_rows_are_left_to_the_user() {
    let parents = links(&[(2, 1), (3, 2), (5, 4)]);
    let shown = Hierarchy::show(&parents, &[1, 4], &[3]);
    assert_eq!(shown.entity_ui(3, true), None);
    assert_eq!(shown.entity_ui(4, true), None);
}
