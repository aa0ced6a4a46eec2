use lyys_launcher::text::{
    from_chars, join, matches_at, parse_i32, replace_chars, split_chars, split_whitespace,
    starts_with, str_eq, to_chars, u64_to_string, i64_to_string,
};

fn chars(s: &str) -> Vec<char> {
    s.chars().collect()
}

fn strings(v: &[Vec<char>]) -> Vec<String> {
    v.iter().map(|c| c.iter().collect()).collect()
}

#[test]
fn replace_replaces_every_occurrence() {
    let r = replace_chars(&chars("a.b.c"), &chars("."), &chars("/"));
    assert_eq!(from_chars(&r), "a/b/c");
}

#[test]
fn replace_scans_left_to_right_without_overlap() {
    let r = replace_chars(&chars("aaa"), &chars("aa"), &chars("b"));
    assert_eq!(from_chars(&r), "ba");
}

#[test]
fn replace_without_match_keeps_text() {
    let r = replace_chars(&chars("--demo"), &chars("${x}"), &chars("y"));
    assert_eq!(from_chars(&r), "--demo");
}

#[test]
fn split_keeps_empty_pieces() {
    let parts = split_chars(&chars("a::b:"), ':');
    assert_eq!(strings(&parts), vec!["a", "", "b", ""]);
    let parts = split_chars(&chars(""), ':');
    assert_eq!(strings(&parts), vec![""]);
}

#[test]
fn split_whitespace_drops_runs_of_whitespace() {
    let words = split_whitespace(&chars("  --a  b\t\nc \u{3000}d "));
    assert_eq!(strings(&words), vec!["--a", "b", "c", "d"]);
    assert!(split_whitespace(&chars(" \t ")).is_empty());
}

#[test]
fn join_puts_separator_between_pieces() {
    let v = vec!["a".to_string(), "b".to_string(), "c".to_string()];
    assert_eq!(join(&v, ", "), "a, b, c");
    assert_eq!(join(&vec!["x".to_string()], ";"), "x");
    assert_eq!(join(&Vec::new(), ";"), "");
}

#[test]
fn decimal_numerals() {
    assert_eq!(u64_to_string(0), "0");
    assert_eq!(u64_to_string(2048), "2048");
    assert_eq!(u64_to_string(u64::MAX), "18446744073709551615");
    assert_eq!(i64_to_string(-17), "-17");
    assert_eq!(i64_to_string(i64::MIN), "-9223372036854775808");
}

#[test]
fn parse_i32_follows_std() {
    for s in ["17", "+5", "-3", "0", "007", "2147483647", "-2147483648", "", "-", "+", "1a", " 1", "2147483648", "-2147483649", "99999999999999999999"] {
        assert_eq!(parse_i32(&chars(s)), s.parse::<i32>().ok(), "{}", s);
    }
}

#[test]
fn prefix_and_equality() {
    assert!(starts_with("META-INF/x", "META-INF/"));
    assert!(!starts_with("META", "META-INF/"));
    assert!(str_eq("allow", "allow"));
    assert!(!str_eq("allow", "disallow"));
    assert!(matches_at(&chars("x${a}"), 1, &chars("${a}")));
    assert!(!matches_at(&chars("x${a}"), 2, &chars("${a}")));
    assert_eq!(to_chars("héllo").len(), 5);
}
