use bmm_lib::text::chars_of;
use bmm_lib::text::contains;
use bmm_lib::text::decimal_to_u64;
use bmm_lib::text::ends_with;
use bmm_lib::text::starts_with;
use bmm_lib::text::str_eq;
use bmm_lib::text::str_lt;
use bmm_lib::text::u64_to_decimal;
use bmm_lib::text::unquoted_eq;

#[test]
fn strings_compare_by_characters() {
    assert!(str_eq("", ""));
    assert!(str_eq("abc", "abc"));
    assert!(!str_eq("abc", "abd"));
    assert!(!str_eq("abc", "ab"));
    assert!(str_eq("\u{e9}t\u{e9}", "\u{e9}t\u{e9}"));
    assert_eq!(chars_of("a\u{e9}\u{1f600}"), vec!['a', '\u{e9}', '\u{1f600}']);
}

#[test]
fn substrings_are_found() {
    assert!(contains("abc", ""));
    assert!(contains("", ""));
    assert!(!contains("", "a"));
    assert!(contains("/mods/lovely", "lovely"));
    assert!(contains("lovely", "lovely"));
    assert!(!contains("lovel", "lovely"));
    assert!(contains("aab", "ab"));
    assert!(starts_with("smods-1", "smods-"));
    assert!(!starts_with("xsmods-1", "smods-"));
    assert!(starts_with("a", ""));
    assert!(!starts_with("sm", "smods-"));
    assert!(ends_with("bin/version.dll", "version.dll"));
    assert!(!ends_with("version.dll.bak", "version.dll"));
    assert!(ends_with("x", ""));
}

#[test]
fn quotes_are_trimmed_at_both_ends_only() {
    assert!(unquoted_eq("A", "A"));
    assert!(unquoted_eq("\"A\"", "A"));
    assert!(unquoted_eq("\"\"\"A\"", "A"));
    assert!(unquoted_eq("A\"B", "A\"B"));
    assert!(unquoted_eq("\"A\"B\"", "A\"B"));
    assert!(!unquoted_eq("\"A\"", "\"A\""));
    assert!(unquoted_eq("\"\"", ""));
    assert!(unquoted_eq("", ""));
    assert!(!unquoted_eq("A", "B"));
    assert!(!unquoted_eq("AB", "A"));
}

#[test]
fn order_is_by_code_point() {
    assert!(str_lt("", "a"));
    assert!(!str_lt("a", ""));
    assert!(!str_lt("a", "a"));
    assert!(str_lt("a", "b"));
    assert!(str_lt("a", "ab"));
    assert!(str_lt("1.10", "1.9"));
    assert!(str_lt("Z", "a"));
    assert!(str_lt("z", "\u{e9}"));
    assert!(!str_lt("b", "abc"));
    for (a, b) in [("v1.0", "v1.0.1"), ("abc", "abd"), ("\u{ff5e}", "\u{1f600}")] {
        assert_eq!(str_lt(a, b), a < b);
        assert_eq!(str_lt(b, a), b < a);
    }
}

#[test]
fn numbers_are_written_in_decimal() {
    assert_eq!(u64_to_decimal(0), "0");
    assert_eq!(u64_to_decimal(7), "7");
    assert_eq!(u64_to_decimal(10), "10");
    assert_eq!(u64_to_decimal(1234567890), "1234567890");
    assert_eq!(u64_to_decimal(u64::MAX), "18446744073709551615");
}

#[test]
fn numbers_are_read_as_the_standard_library_reads_them() {
    let cases = [
        "0", "7", "007", "+5", "+", "", "-1", " 1", "1 ", "1_000", "12a", "18446744073709551615",
        "18446744073709551616", "99999999999999999999999", "000000000000000000000000001", "++1",
        "1+", "\u{661}",
    ];
    for case in cases {
        assert_eq!(decimal_to_u64(case), case.parse::<u64>().ok(), "{:?}", case);
    }
    assert_eq!(decimal_to_u64("42"), Some(42));
    assert_eq!(decimal_to_u64("18446744073709551616"), None);
}
