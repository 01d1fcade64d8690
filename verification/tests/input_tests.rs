use data_contract_creator::input::{bound_input, count_input};
use data_contract_creator::text::{
    chars_of, contains_text, decimal_text, first_index_of, last_index_of, same_text,
};

#[test]
fn an_empty_field_clears_the_number() {
    assert_eq!(count_input(""), None);
    assert_eq!(bound_input(""), None);
}

#[test]
fn a_count_is_read_from_digits() {
    assert_eq!(count_input("0"), Some(0));
    assert_eq!(count_input("63"), Some(63));
    assert_eq!(count_input("007"), Some(7));
    assert_eq!(count_input("+12"), Some(12));
    assert_eq!(count_input("4294967295"), Some(u32::MAX));
}

#[test]
fn what_is_no_count_counts_as_zero() {
    assert_eq!(count_input("4294967296"), Some(0));
    assert_eq!(count_input("99999999999999999999999999"), Some(0));
    assert_eq!(count_input("-1"), Some(0));
    assert_eq!(count_input("-0"), Some(0));
    assert_eq!(count_input("1.5"), Some(0));
    assert_eq!(count_input("1e3"), Some(0));
    assert_eq!(count_input(" 1"), Some(0));
    assert_eq!(count_input("1 "), Some(0));
    assert_eq!(count_input("+"), Some(0));
    assert_eq!(count_input("++1"), Some(0));
    assert_eq!(count_input("abc"), Some(0));
    assert_eq!(count_input("\u{663}"), Some(0));
}

#[test]
fn a_bound_is_read_with_its_sign() {
    assert_eq!(bound_input("0"), Some(0));
    assert_eq!(bound_input("-0"), Some(0));
    assert_eq!(bound_input("+5"), Some(5));
    assert_eq!(bound_input("-17"), Some(-17));
    assert_eq!(bound_input("2147483647"), Some(i32::MAX));
    assert_eq!(bound_input("-2147483648"), Some(i32::MIN));
    assert_eq!(bound_input("-0002147483648"), Some(i32::MIN));
}

#[test]
fn what_is_no_bound_counts_as_zero() {
    assert_eq!(bound_input("2147483648"), Some(0));
    assert_eq!(bound_input("-2147483649"), Some(0));
    assert_eq!(bound_input("-"), Some(0));
    assert_eq!(bound_input("+"), Some(0));
    assert_eq!(bound_input("--1"), Some(0));
    assert_eq!(bound_input("-+1"), Some(0));
    assert_eq!(bound_input("1-"), Some(0));
    assert_eq!(bound_input("0.5"), Some(0));
    assert_eq!(bound_input("123456789012345678901234567890"), Some(0));
}

#[test]
fn the_inputs_agree_with_the_parsers_of_the_standard_library() {
    let samples = [
        "", "0", "1", "+1", "-1", "12a", "a12", "4294967295", "4294967296", "2147483647",
        "2147483648", "-2147483648", "-2147483649", "+", "-", "+-1", " 3", "00", "-00", "٣",
    ];
    for s in samples {
        let count = if s.is_empty() { None } else { Some(s.parse::<u32>().unwrap_or_default()) };
        let bound = if s.is_empty() { None } else { Some(s.parse::<i32>().unwrap_or_default()) };
        assert_eq!(count_input(s), count, "count of {:?}", s);
        assert_eq!(bound_input(s), bound, "bound of {:?}", s);
    }
}

#[test]
fn texts_are_compared_by_their_characters() {
    assert!(same_text("", ""));
    assert!(same_text("type", "type"));
    assert!(!same_text("type", "typ"));
    assert!(!same_text("type", "Type"));
    assert!(same_text("\u{e9}t\u{e9}", "\u{e9}t\u{e9}"));
    assert!(!same_text("\u{e9}", "e"));
}

#[test]
fn the_characters_of_a_text_are_listed() {
    assert_eq!(chars_of(""), Vec::<char>::new());
    assert_eq!(chars_of("a{\u{e9}}"), vec!['a', '{', '\u{e9}', '}']);
}

#[test]
fn a_text_is_found_inside_another() {
    assert!(contains_text("abc", ""));
    assert!(contains_text("", ""));
    assert!(!contains_text("", "a"));
    assert!(contains_text("abc", "abc"));
    assert!(contains_text("abc", "bc"));
    assert!(contains_text("abc", "a"));
    assert!(!contains_text("abc", "abcd"));
    assert!(!contains_text("abc", "ac"));
    assert!(contains_text("aaab", "aab"));
    assert!(contains_text("x\u{e9}y", "\u{e9}y"));
}

#[test]
fn the_first_and_the_last_of_a_character_are_found() {
    let v = chars_of("a{b{c}d}e");
    assert_eq!(first_index_of(&v, '{'), Some(1));
    assert_eq!(last_index_of(&v, '{'), Some(3));
    assert_eq!(first_index_of(&v, '}'), Some(5));
    assert_eq!(last_index_of(&v, '}'), Some(7));
    assert_eq!(first_index_of(&v, 'z'), None);
    assert_eq!(last_index_of(&v, 'z'), None);
    assert_eq!(first_index_of(&Vec::new(), 'a'), None);
    assert_eq!(last_index_of(&Vec::new(), 'a'), None);
    assert_eq!(first_index_of(&v, 'a'), Some(0));
    assert_eq!(last_index_of(&v, 'e'), Some(8));
}

#[test]
fn numbers_are_written_in_decimal() {
    assert_eq!(decimal_text(0), "0");
    assert_eq!(decimal_text(7), "7");
    assert_eq!(decimal_text(10), "10");
    assert_eq!(decimal_text(429), "429");
    assert_eq!(decimal_text(65535), "65535");
    assert_eq!(decimal_text(u64::MAX), "18446744073709551615");
}
