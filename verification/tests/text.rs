use channel_bot::numbers::{parse_i64, show_i64, show_u64, show_usize};
use channel_bot::sorting::{dedup, is_text_le, sorted_ignoring_case, sorted_texts};
use channel_bot::text::{
    ascii_lowercase, handle, join2, join3, lines, same, split, splitn, starts_with, strip_prefix,
    trim, trim_both, CharKind,
};

fn texts(list: &[&str]) -> Vec<String> {
    list.iter().map(|s| s.to_string()).collect()
}

#[test]
fn numbers_are_read() {
    assert_eq!(parse_i64("42"), Some(42));
    assert_eq!(parse_i64("-1001234567890"), Some(-1001234567890));
    assert_eq!(parse_i64("+7"), Some(7));
    assert_eq!(parse_i64("007"), Some(7));
    assert_eq!(parse_i64("9223372036854775807"), Some(i64::MAX));
    assert_eq!(parse_i64("-9223372036854775808"), Some(i64::MIN));
}

#[test]
fn what_is_no_number_is_refused() {
    for s in ["", "-", "+", " 1", "1 ", "1a", "--1", "9223372036854775808", "٣"] {
        assert_eq!(parse_i64(s), None);
        assert_eq!(s.parse::<i64>().ok(), None);
    }
}

#[test]
fn numbers_are_written_and_read_back() {
    for n in [0, 7, -7, 10, 1000, i64::MAX, i64::MIN] {
        assert_eq!(show_i64(n), n.to_string());
        assert_eq!(parse_i64(&show_i64(n)), Some(n));
    }
    assert_eq!(show_u64(u64::MAX), "18446744073709551615");
    assert_eq!(show_usize(0), "0");
}

#[test]
fn trimming_follows_the_standard_library() {
    for s in ["", " ", "  a b  ", "\t\u{a0}x\u{3000}\n", "x"] {
        assert_eq!(trim(s), s.trim());
    }
    assert_eq!(trim_both("\"a\"b\"\"", CharKind::Quote), "a\"b");
    assert_eq!(trim_both("id=-12!", CharKind::Foreign), "-12");
}

#[test]
fn handles_lose_their_signs_and_case() {
    assert_eq!(handle("  @@Name "), "name");
    assert_eq!(handle("ÄБВ"), "äбв");
    assert_eq!(handle("@"), "");
}

#[test]
fn splitting_follows_the_standard_library() {
    for s in ["", "a", "a;b;;c", ";", "a#b"] {
        let all: Vec<&str> = s.split(';').collect();
        assert_eq!(split(s, CharKind::Semicolon), texts(&all));
        let some: Vec<&str> = s.splitn(2, ';').collect();
        assert_eq!(splitn(s, 2, CharKind::Semicolon), texts(&some));
    }
    for s in ["", "a", "a\n", "a\r\nb", "a\n\nb\r", "\n"] {
        let all: Vec<&str> = s.lines().collect();
        assert_eq!(lines(s), texts(&all));
    }
}

#[test]
fn prefixes_are_found() {
    assert!(starts_with("pay:start", "pay:"));
    assert!(!starts_with("pa", "pay:"));
    assert_eq!(strip_prefix("pay:check:5", "pay:check:"), Some("5".to_string()));
    assert_eq!(strip_prefix("pay:start", "pay:check:"), None);
}

#[test]
fn texts_are_joined_and_compared() {
    assert_eq!(join2("a", "б"), "aб");
    assert_eq!(join3("a", "", "c"), "ac");
    assert!(same("да", "да"));
    assert!(!same("да", "Да"));
    assert_eq!(ascii_lowercase("AbЖ"), "abЖ");
}

#[test]
fn sorting_is_stable_and_by_code_point() {
    assert!(is_text_le("a", "ab"));
    assert!(is_text_le("Z", "a"));
    assert!(!is_text_le("б", "a"));
    assert_eq!(sorted_texts(&texts(&["b", "a", "C", "a"])), texts(&["C", "a", "a", "b"]));
    assert_eq!(
        sorted_ignoring_case(&texts(&["b", "A", "a", "B"])),
        texts(&["A", "a", "b", "B"])
    );
    assert_eq!(dedup(&texts(&["a", "a", "b", "a"])), texts(&["a", "b", "a"]));
}
