use wallpaper_tool::order::{is_not_after, order_of_keys, sort_unique};

fn strings(list: &[&str]) -> Vec<String> {
    list.iter().map(|text| text.to_string()).collect()
}

#[test]
fn texts_are_ordered_by_their_characters() {
    assert!(is_not_after("", ""));
    assert!(is_not_after("", "a"));
    assert!(!is_not_after("a", ""));
    assert!(is_not_after("a", "ab"));
    assert!(!is_not_after("b", "ab"));
    assert!(is_not_after("10.0.0.10", "10.0.0.9"));
    assert!(is_not_after("Z", "a"));
}

#[test]
fn the_order_is_that_of_the_standard_library() {
    let samples = ["", "a", "ab", "b", "Ab", "网", "网络", "\u{ffff}", "\u{10000}", "é", "\u{7f}"];
    for left in samples {
        for right in samples {
            assert_eq!(is_not_after(left, right), left <= right);
        }
    }
}

#[test]
fn sorting_keeps_each_text_once() {
    assert_eq!(
        sort_unique(strings(&["10.0.0.9", "10.0.0.10", "10.0.0.9", "1.1.1.1"])),
        strings(&["1.1.1.1", "10.0.0.10", "10.0.0.9"]),
    );
    assert_eq!(sort_unique(strings(&[])), strings(&[]));
    assert_eq!(sort_unique(strings(&["a", "a", "a"])), strings(&["a"]));
}

#[test]
fn equal_keys_keep_their_order() {
    assert_eq!(order_of_keys(&strings(&["b", "a", "b", "a"])), vec![1, 3, 0, 2]);
    assert_eq!(order_of_keys(&strings(&["a", "b", "c"])), vec![0, 1, 2]);
    assert_eq!(order_of_keys(&strings(&[])), Vec::<usize>::new());
}
