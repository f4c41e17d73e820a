use mouse_tracker::{decimal_string, truncate_text, MAX_TEXT_CHARS};

#[test]
fn decimal_of_small_and_large_numbers() {
    assert_eq!(decimal_string(0), "0");
    assert_eq!(decimal_string(7), "7");
    assert_eq!(decimal_string(10), "10");
    assert_eq!(decimal_string(1234567890), "1234567890");
    assert_eq!(decimal_string(u64::MAX), "18446744073709551615");
}

#[test]
fn decimal_agrees_with_std_formatting() {
    let mut n: u64 = 1;
    for _ in 0..64 {
        assert_eq!(decimal_string(n), n.to_string());
        assert_eq!(decimal_string(n - 1), (n - 1).to_string());
        n = n.wrapping_mul(3).wrapping_add(11);
    }
}

#[test]
fn text_limit_is_fifty() {
    assert_eq!(MAX_TEXT_CHARS, 50);
}

#[test]
fn empty_text_is_omitted() {
    assert_eq!(truncate_text(""), None);
}

#[test]
fn short_text_is_kept() {
    assert_eq!(truncate_text("hello"), Some("hello".to_string()));
}

#[test]
fn text_of_exactly_fifty_characters_is_kept() {
    let t = "a".repeat(50);
    assert_eq!(truncate_text(&t), Some(t.clone()));
}

#[test]
fn text_of_fifty_one_characters_is_truncated() {
    let t = "b".repeat(51);
    let r = truncate_text(&t).unwrap();
    assert_eq!(r, format!("{}...", "b".repeat(50)));
    assert_eq!(r.chars().count(), 53);
}

#[test]
fn multi_byte_text_is_counted_by_character() {
    let t = "拖".repeat(50);
    assert_eq!(t.len(), 150);
    assert_eq!(truncate_text(&t), Some(t.clone()));
}

#[test]
fn truncation_does_not_split_a_multi_byte_character() {
    let t = format!("{}{}", "拽".repeat(49), "我你他");
    let r = truncate_text(&t).unwrap();
    assert_eq!(r, format!("{}我...", "拽".repeat(49)));
    assert_eq!(r.chars().count(), 53);
}

#[test]
fn snippet_never_exceeds_fifty_three_characters() {
    for n in 0..200usize {
        let t = "é".repeat(n);
        match truncate_text(&t) {
            None => assert_eq!(n, 0),
            Some(s) => {
                assert!(s.chars().count() <= 53);
                if n <= 50 {
                    assert_eq!(s, t);
                } else {
                    assert!(s.ends_with("..."));
                    assert!(t.starts_with(&s[..s.len() - 3]));
                }
            }
        }
    }
}
