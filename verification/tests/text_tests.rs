use connect_box::text::{str_eq, str_lt, str_starts_with, usize_to_string};

#[test]
fn string_order_is_lexicographic_by_code_point() {
    assert!(str_lt("A", "B"));
    assert!(!str_lt("B", "A"));
    assert!(!str_lt("A", "A"));
    // A proper prefix sorts before the longer string.
    assert!(str_lt("AB", "ABC"));
    assert!(!str_lt("ABC", "AB"));
    // The empty string sorts before everything else.
    assert!(str_lt("", "A"));
    assert!(!str_lt("A", ""));
    assert!(!str_lt("", ""));
    // Raw comparison: digits sort before upper case, upper before lower.
    assert!(str_lt("0", "A"));
    assert!(str_lt("A", "a"));
    // MAC-style strings compare position by position.
    assert!(str_lt("AB:CD:EF:01:23:45", "CD:EF:01:23:45:AB"));
    assert!(str_lt("01:23:45:AB:CD:EF", "AB:CD:EF:01:23:45"));
}

#[test]
fn string_equality_compares_characters() {
    assert!(str_eq("", ""));
    assert!(str_eq("abc", "abc"));
    assert!(!str_eq("abc", "abd"));
    assert!(!str_eq("abc", "ab"));
}

#[test]
fn prefix_test() {
    assert!(str_starts_with("successful;user=admin", "successful;"));
    assert!(!str_starts_with("success", "successful;"));
    assert!(str_starts_with("anything", ""));
    assert!(str_starts_with("<!doctype html><html/>", "<!doctype html>"));
    assert!(!str_starts_with("<html/>", "<!doctype html>"));
}

#[test]
fn decimal_rendering() {
    assert_eq!(usize_to_string(0), "0");
    assert_eq!(usize_to_string(7), "7");
    assert_eq!(usize_to_string(10), "10");
    assert_eq!(usize_to_string(123), "123");
    assert_eq!(usize_to_string(98765), "98765");
    assert_eq!(usize_to_string(4294967295), "4294967295");
}
