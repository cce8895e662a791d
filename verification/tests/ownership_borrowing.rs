use lib::borrowing;
use lib::ownership::{calculate_length, change, give_ownership, take_and_give};

#[test]
fn give_ownership_returns_hello() {
    assert_eq!(give_ownership(), "hello");
}

#[test]
fn take_and_give_returns_the_same_string() {
    let s = String::from("moved around");
    assert_eq!(take_and_give(s), "moved around");
}

#[test]
fn calculate_length_counts_bytes() {
    assert_eq!(calculate_length(&String::from("hello")), 5);
    assert_eq!(calculate_length(&String::from("")), 0);
    assert_eq!(calculate_length(&String::from("中文")), 6);
}

#[test]
fn change_appends_world() {
    let mut s = String::from("hello");
    change(&mut s);
    assert_eq!(s, "hello, world");
    change(&mut s);
    assert_eq!(s, "hello, world, world");
}

#[test]
fn first_word_stops_at_the_first_space() {
    assert_eq!(borrowing::first_word("hello world"), "hello");
    assert_eq!(borrowing::first_word(&String::from("hello world")), "hello");
}

#[test]
fn first_word_of_text_without_space_is_the_text() {
    assert_eq!(borrowing::first_word("hello"), "hello");
    assert_eq!(borrowing::first_word(""), "");
}

#[test]
fn first_word_of_text_starting_with_space_is_empty() {
    assert_eq!(borrowing::first_word(" leading"), "");
    assert_eq!(borrowing::first_word("你好 世界"), "你好");
}

#[test]
fn modify_string_ref_uppercases_ascii_letters_only() {
    let mut s = String::from("abc");
    borrowing::modify_string_ref(&mut s);
    assert_eq!(s, "ABC");
    let mut t = String::from("a1-zé");
    borrowing::modify_string_ref(&mut t);
    assert_eq!(t, "A1-Zé");
}

#[test]
fn first_word_is_a_prefix_without_spaces() {
    for s in ["a b c", "abc", " x", "", "ab  "] {
        let w = borrowing::first_word(s);
        assert!(s.starts_with(w));
        assert!(!w.contains(' '));
        assert_eq!(w.len() == s.len(), !s.contains(' '));
    }
}
