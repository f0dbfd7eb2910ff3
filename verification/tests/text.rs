use scene_inspector::text::{comes_before, decimal_string, order_by_name, starts_with};

fn strings(names: &[&str]) -> Vec<String> {
    names.iter().map(|n| n.to_string()).collect()
}

#[test]
fn decimal_of_single_digits() {
    for n in 0..10u64 {
        assert_eq!(decimal_string(n), n.to_string());
    }
}

#[test]
fn decimal_of_zero_is_one_digit() {
    assert_eq!(decimal_string(0), "0");
}

#[test]
fn decimal_of_larger_numbers() {
    assert_eq!(decimal_string(10), "10");
    assert_eq!(decimal_string(120), "120");
    assert_eq!(decimal_string(1009), "1009");
    assert_eq!(decimal_string(4294967295), "4294967295");
    assert_eq!(decimal_string(u64::MAX), "18446744073709551615");
}

#[test]
fn decimal_agrees_with_std() {
    let mut n: u64 = 1;
    for _ in 0..60 {
        assert_eq!(decimal_string(n), n.to_string());
        assert_eq!(decimal_string(n - 1), (n - 1).to_string());
        n = n.wrapping_mul(3).wrapping_add(7);
    }
}

#[test]
fn starts_with_a_prefix() {
    assert!(starts_with("game::ui", "game"));
    assert!(starts_with("game", "game"));
    assert!(starts_with("game", ""));
    assert!(starts_with("", ""));
}

#[test]
fn starts_with_rejects_other_text() {
    assert!(!starts_with("gam", "game"));
    assert!(!starts_with("", "game"));
    assert!(!starts_with("other::game", "game"));
    assert!(!starts_with("Game::ui", "game"));
}

#[test]
fn starts_with_compares_characters() {
    assert!(starts_with("héllo", "hé"));
    assert!(!starts_with("héllo", "he"));
    assert!(starts_with("日本語", "日本"));
}

#[test]
fn starts_with_agrees_with_std() {
    let words = ["", "a", "ab", "abc", "b", "ba", "é", "éa", "game", "game::x"];
    for text in words {
        for prefix in words {
            assert_eq!(starts_with(text, prefix), text.starts_with(prefix));
        }
    }
}

#[test]
fn comes_before_orders_by_first_difference() {
    assert!(comes_before("a", "b"));
    assert!(!comes_before("b", "a"));
    assert!(comes_before("Camera", "Cameras"));
    assert!(!comes_before("Cameras", "Camera"));
    assert!(comes_before("Time", "Timer"));
    assert!(comes_before("abd", "abe"));
}

#[test]
fn comes_before_is_strict() {
    assert!(!comes_before("", ""));
    assert!(!comes_before("same", "same"));
}

#[test]
fn comes_before_puts_the_empty_name_first() {
    assert!(comes_before("", "a"));
    assert!(!comes_before("a", ""));
}

#[test]
fn comes_before_goes_by_code_point() {
    assert!(comes_before("Z", "a"));
    assert!(comes_before("z", "é"));
    assert!(!comes_before("é", "z"));
    assert!(comes_before("é", "日"));
}

#[test]
fn comes_before_agrees_with_std() {
    let words = ["", "A", "a", "ab", "abc", "b", "ba", "Z", "é", "éa", "日本", "~", "0", "10", "9"];
    for a in words {
        for b in words {
            assert_eq!(comes_before(a, b), a < b);
        }
    }
}

#[test]
fn order_of_no_names() {
    assert_eq!(order_by_name(&Vec::new()), Vec::<usize>::new());
}

#[test]
fn order_of_one_name() {
    assert_eq!(order_by_name(&strings(&["only"])), vec![0]);
}

#[test]
fn order_sorts_by_name() {
    assert_eq!(order_by_name(&strings(&["b", "a", "c"])), vec![1, 0, 2]);
    assert_eq!(order_by_name(&strings(&["c", "b", "a"])), vec![2, 1, 0]);
    assert_eq!(order_by_name(&strings(&["a", "b", "c"])), vec![0, 1, 2]);
}

#[test]
fn order_keeps_equal_names_as_they_came() {
    assert_eq!(order_by_name(&strings(&["b", "a", "b", "a"])), vec![1, 3, 0, 2]);
    assert_eq!(order_by_name(&strings(&["x", "x", "x"])), vec![0, 1, 2]);
}

#[test]
fn order_agrees_with_a_stable_sort() {
    let lists: [&[&str]; 5] = [
        &["Time", "Assets", "Input", "Events", "Assets"],
        &["b", "B", "a", "A", "", "ab"],
        &["3", "20", "100", "3"],
        &["é", "e", "f", "E"],
        &["z", "y", "x", "w", "v", "u", "t", "s"],
    ];
    for list in lists {
        let names = strings(list);
        let mut expected: Vec<usize> = (0..names.len()).collect();
        expected.sort_by(|a, b| names[*a].cmp(&names[*b]));
        assert_eq!(order_by_name(&names), expected);
    }
}

#[test]
fn order_holds_every_place_once() {
    let names = strings(&["d", "a", "c", "a", "b", "d"]);
    let mut order = order_by_name(&names);
    order.sort();
    assert_eq!(order, vec![0, 1, 2, 3, 4, 5]);
}
