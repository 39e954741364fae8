use auto_mount::text::{
    contains, decimal, field_count, last_path_segment, lines, parse_u64, sort, starts_with,
    text_before_or_equal, text_eq, trim,
};

fn texts(items: &[&str]) -> Vec<String> {
    items.iter().map(|item| item.to_string()).collect()
}

#[test]
fn trim_strips_white_space_at_both_ends() {
    assert_eq!(trim("  a b \t\n"), "a b");
    assert_eq!(trim(""), "");
    assert_eq!(trim(" \u{3000}\u{a0} "), "");
    assert_eq!(trim("x"), "x");
    assert_eq!(trim("\u{2003}é \u{85}"), "é");
}

#[test]
fn lines_follow_line_feeds() {
    assert_eq!(lines(""), Vec::<String>::new());
    assert_eq!(lines("\n"), texts(&[""]));
    assert_eq!(lines("a\n\nb\n"), texts(&["a", "", "b"]));
    assert_eq!(lines("a\nb"), texts(&["a", "b"]));
    assert_eq!(lines("a\r\nb\r"), texts(&["a", "b\r"]));
    assert_eq!(lines("\r\n"), texts(&[""]));
}

#[test]
fn lines_agree_with_the_standard_library() {
    for sample in ["", "x", "x\n", "\n\n", "a\r\n\r\nb", "é\nü\r\n", "\r", "a\rb\n"] {
        let expected: Vec<String> = sample.lines().map(|line| line.to_string()).collect();
        assert_eq!(lines(sample), expected);
    }
}

#[test]
fn field_count_counts_runs_between_white_space() {
    assert_eq!(field_count(""), 0);
    assert_eq!(field_count("   "), 0);
    assert_eq!(field_count("a"), 1);
    assert_eq!(field_count(" a  b\tc "), 3);
    assert_eq!(field_count("UUID=1  /mnt/a  ext4  rw,acl  0  0"), 6);
    assert_eq!(field_count("a\u{a0}b"), 2);
}

#[test]
fn field_count_agrees_with_the_standard_library() {
    for sample in ["", " ", "a b", "  a", "a  ", "x\ty\nz", "é ü", "a\u{2028}b c"] {
        assert_eq!(field_count(sample), sample.split_whitespace().count());
    }
}

#[test]
fn contains_finds_a_part_anywhere() {
    assert!(contains("/dev/sda1", "/dev/sda"));
    assert!(contains("abc", ""));
    assert!(contains("", ""));
    assert!(contains("xxabc", "abc"));
    assert!(!contains("abc", "abcd"));
    assert!(!contains("", "a"));
    assert!(!contains("/dev/sdb1", "/dev/sda"));
}

#[test]
fn starts_with_compares_the_beginning() {
    assert!(starts_with("/dev/sda", "/dev/"));
    assert!(starts_with("abc", ""));
    assert!(!starts_with("dev/sda", "/dev/"));
    assert!(!starts_with("/de", "/dev/"));
}

#[test]
fn text_eq_compares_all_characters() {
    assert!(text_eq("1", "1"));
    assert!(text_eq("", ""));
    assert!(!text_eq("1", "10"));
    assert!(!text_eq("ab", "ac"));
}

#[test]
fn last_path_segment_follows_the_last_slash() {
    assert_eq!(last_path_segment("/dev/sda1"), "sda1");
    assert_eq!(last_path_segment("sda1"), "sda1");
    assert_eq!(last_path_segment("/dev/"), "");
    assert_eq!(last_path_segment(""), "");
}

#[test]
fn parse_u64_reads_decimal_numbers() {
    assert_eq!(parse_u64("0"), Some(0));
    assert_eq!(parse_u64("3221225472000"), Some(3221225472000));
    assert_eq!(parse_u64("+17"), Some(17));
    assert_eq!(parse_u64("007"), Some(7));
    assert_eq!(parse_u64("18446744073709551615"), Some(u64::MAX));
    assert_eq!(parse_u64("18446744073709551616"), None);
    assert_eq!(parse_u64("99999999999999999999999"), None);
    assert_eq!(parse_u64(""), None);
    assert_eq!(parse_u64("+"), None);
    assert_eq!(parse_u64("-1"), None);
    assert_eq!(parse_u64("12a"), None);
    assert_eq!(parse_u64(" 12"), None);
}

#[test]
fn parse_u64_agrees_with_the_standard_library() {
    for sample in ["", "+", "++1", "1", "+0", "18446744073709551615", "18446744073709551616", "1_0", "٣"] {
        assert_eq!(parse_u64(sample), sample.parse::<u64>().ok());
    }
}

#[test]
fn decimal_writes_numbers_without_leading_zeros() {
    assert_eq!(decimal(0), "0");
    assert_eq!(decimal(7), "7");
    assert_eq!(decimal(10), "10");
    assert_eq!(decimal(1700000000), "1700000000");
    assert_eq!(decimal(u64::MAX), "18446744073709551615");
}

#[test]
fn sort_orders_texts_as_the_standard_library_does() {
    let mixed = texts(&["/dev/sdc", "/dev/sda", "/dev/sdb", "/dev/sda", "", "é", "z", "Z"]);
    let mut expected = mixed.clone();
    expected.sort();
    assert_eq!(sort(mixed), expected);
    assert_eq!(sort(Vec::new()), Vec::<String>::new());
}

#[test]
fn text_order_is_by_code_point() {
    assert!(text_before_or_equal("", "a"));
    assert!(text_before_or_equal("a", "a"));
    assert!(text_before_or_equal("a", "ab"));
    assert!(!text_before_or_equal("ab", "a"));
    assert!(text_before_or_equal("Z", "a"));
    assert!(text_before_or_equal("z", "é"));
    assert!(!text_before_or_equal("b", "a"));
}
