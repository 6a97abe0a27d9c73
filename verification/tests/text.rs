use watchwoman::text::{
    align_left, align_right, chars_of, contains, decimal, signed, text_from, two_digits,
};

#[test]
fn numbers_in_base_ten() {
    assert_eq!(decimal(0), "0");
    assert_eq!(decimal(10), "10");
    assert_eq!(decimal(u64::MAX), u64::MAX.to_string());
    assert_eq!(signed(-7), "-7");
    assert_eq!(signed(i64::MIN), i64::MIN.to_string());
    assert_eq!(signed(i64::MAX), i64::MAX.to_string());
    assert_eq!(two_digits(3), "03");
    assert_eq!(two_digits(42), "42");
    assert_eq!(two_digits(123), "123");
}

#[test]
fn alignment_counts_characters() {
    assert_eq!(align_left("ab", 4), "ab  ");
    assert_eq!(align_right("ab", 4), "  ab");
    assert_eq!(align_left("größe", 6), format!("{:<6}", "größe"));
    assert_eq!(align_right("toolong", 3), "toolong");
}

#[test]
fn searching() {
    assert!(contains("a/target/debug/x", "/target/debug/"));
    assert!(!contains("a/target/debu", "/target/debug/"));
    assert!(contains("abc", ""));
    assert!(contains("", ""));
    assert!(!contains("", "a"));
    assert!(contains("aab", "ab"));
}

#[test]
fn characters_and_back() {
    let v = chars_of("aé…");
    assert_eq!(v, vec!['a', 'é', '…']);
    assert_eq!(text_from(&v, 1), "é…");
    assert_eq!(text_from(&v, 3), "");
}
