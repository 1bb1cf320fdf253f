use ide_ui::text::{count_lines, decimal_string, is_blank, join_texts, repeat_text};

#[test]
fn numerals() {
    assert_eq!(decimal_string(0), "0");
    assert_eq!(decimal_string(7), "7");
    assert_eq!(decimal_string(42), "42");
    assert_eq!(decimal_string(1000), "1000");
    assert_eq!(decimal_string(u64::MAX), u64::MAX.to_string());
}

#[test]
fn repetition_and_joining() {
    assert_eq!(repeat_text("ab", 3), "ababab");
    assert_eq!(repeat_text("ab", 0), "");
    assert_eq!(join_texts(&vec!["a".to_string(), "b".to_string(), "c".to_string()], ", "), "a, b, c");
    assert_eq!(join_texts(&Vec::new(), ", "), "");
}

#[test]
fn blanks_and_lines() {
    assert!(is_blank(""));
    assert!(is_blank(" \t\r\n"));
    assert!(!is_blank(" a "));
    assert_eq!(count_lines(""), 0);
    assert_eq!(count_lines("\n"), 1);
    assert_eq!(count_lines("a\r\nb"), 2);
    assert_eq!(count_lines("a\n\n"), 2);
}
