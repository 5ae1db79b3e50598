use race_of_sloths::text::contains_str;
use race_of_sloths::text::find_str;
use race_of_sloths::text::parse_u64;
use race_of_sloths::text::replace_str;
use race_of_sloths::text::take_line;
use race_of_sloths::text::trim;
use race_of_sloths::text::u64_to_dec;

#[test]
fn find_locates_first_occurrence() {
    assert_eq!(find_str("hello world", "world"), Some(6));
    assert_eq!(find_str("aaa", "aa"), Some(0));
    assert_eq!(find_str("hello", "xyz"), None);
    assert_eq!(find_str("short", "much longer pattern"), None);
}

#[test]
fn contains_matches_substring_search() {
    assert!(contains_str("@sloth include please", "@sloth include"));
    assert!(!contains_str("@sloth includ", "@sloth include"));
}

#[test]
fn decimal_rendering() {
    assert_eq!(u64_to_dec(0).as_str(), "0");
    assert_eq!(u64_to_dec(7).as_str(), "7");
    assert_eq!(u64_to_dec(12345).as_str(), "12345");
    assert_eq!(u64_to_dec(u64::MAX).as_str(), "18446744073709551615");
}

#[test]
fn decimal_parsing() {
    assert_eq!(parse_u64("0"), Some(0));
    assert_eq!(parse_u64("007"), Some(7));
    assert_eq!(parse_u64("12345"), Some(12345));
    assert_eq!(parse_u64(""), None);
    assert_eq!(parse_u64("abc"), None);
    assert_eq!(parse_u64("12a"), None);
    assert_eq!(parse_u64("18446744073709551615"), Some(u64::MAX));
    assert_eq!(parse_u64("18446744073709551616"), None);
    assert_eq!(parse_u64("99999999999999999999999"), None);
}

#[test]
fn trimming_and_lines() {
    assert_eq!(trim("  7  ").as_str(), "7");
    assert_eq!(trim("\t x\r\n").as_str(), "x");
    assert_eq!(trim("").as_str(), "");
    assert_eq!(take_line("first\nsecond").as_str(), "first");
    assert_eq!(take_line("no newline").as_str(), "no newline");
}

#[test]
fn replacement_is_leftmost_and_global() {
    assert_eq!(replace_str("a{x}b{x}c", "{x}", "Y").as_str(), "aYbYc");
    assert_eq!(replace_str("nothing here", "{x}", "Y").as_str(), "nothing here");
    assert_eq!(replace_str("aaaa", "aa", "b").as_str(), "bb");
}
