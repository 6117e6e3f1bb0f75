use no3::text::{
    chars_of, decimal_text, join_text, push_chars, push_decimal, same_text, signed_decimal_text,
    text_of,
};

#[test]
fn numbers_are_written_in_decimal() {
    assert_eq!(decimal_text(0), "0");
    assert_eq!(decimal_text(7), "7");
    assert_eq!(decimal_text(10), "10");
    assert_eq!(decimal_text(1234567890), "1234567890");
    assert_eq!(decimal_text(u64::MAX), "18446744073709551615");
    let mut out = "n".to_string();
    push_decimal(&mut out, 405);
    assert_eq!(out, "n405");
}

#[test]
fn signed_numbers_carry_their_sign() {
    assert_eq!(signed_decimal_text(0), "0");
    assert_eq!(signed_decimal_text(-1), "-1");
    assert_eq!(signed_decimal_text(42), "42");
    assert_eq!(signed_decimal_text(i64::MIN), i64::MIN.to_string());
    assert_eq!(signed_decimal_text(i64::MAX), i64::MAX.to_string());
}

#[test]
fn parts_are_joined_with_the_separator_between_them() {
    assert_eq!(join_text(&vec![], ", "), "");
    assert_eq!(join_text(&vec!["a".to_string()], ", "), "a");
    assert_eq!(join_text(&vec!["a".to_string(), String::new(), "c".to_string()], ", "), "a, , c");
}

#[test]
fn text_and_characters_convert_both_ways() {
    assert_eq!(chars_of("aé€"), vec!['a', 'é', '€']);
    assert!(chars_of("").is_empty());
    assert_eq!(text_of(&vec!['x', 'ÿ']), "xÿ");
    let mut out = "<".to_string();
    push_chars(&mut out, &vec!['a', 'b', 'c', 'd'], 1, 3);
    assert_eq!(out, "<bc");
    assert!(same_text("abc", "abc"));
    assert!(!same_text("abc", "abd"));
    assert!(!same_text("abc", "ab"));
}
