use media_gateway::text::{
    chars_equal, chars_of, contains_chars, format_decimal, format_millionths, format_signed,
    join_strings, split_words, str_equal, string_of, trim_chars,
};

fn chars(s: &str) -> Vec<char> {
    s.chars().collect()
}

fn text(v: Vec<char>) -> String {
    v.into_iter().collect()
}

#[test]
fn strings_and_characters_convert_both_ways() {
    assert_eq!(chars_of("héllo 日本"), chars("héllo 日本"));
    assert_eq!(string_of(&chars("héllo 日本")), "héllo 日本");
    assert!(chars_of("").is_empty());
    assert!(chars_equal(&chars("abc"), "abc"));
    assert!(!chars_equal(&chars("abc"), "abd"));
    assert!(!chars_equal(&chars("abc"), "ab"));
    assert!(str_equal("", ""));
    assert!(!str_equal("a", "A"));
}

#[test]
fn trimming_removes_whitespace_at_both_ends_only() {
    assert_eq!(text(trim_chars(&chars("  a b \t\n"))), "a b");
    assert_eq!(text(trim_chars(&chars("a"))), "a");
    assert_eq!(text(trim_chars(&chars(" \u{a0}\u{3000} "))), "");
    assert_eq!(text(trim_chars(&chars(""))), "");
    for sample in ["  x  y  ", "\u{2003}z", "none", "\n\n"] {
        assert_eq!(text(trim_chars(&chars(sample))), sample.trim());
    }
}

#[test]
fn words_are_the_runs_between_whitespace() {
    let split = |s: &str| split_words(&chars(s)).into_iter().map(text).collect::<Vec<_>>();
    assert_eq!(split("  one two\tthree\n"), vec!["one", "two", "three"]);
    assert!(split("   ").is_empty());
    assert!(split("").is_empty());
    assert_eq!(split("single"), vec!["single"]);
    for sample in ["a  b", " lead", "trail ", "日本 語\u{3000}x"] {
        assert_eq!(split(sample), sample.split_whitespace().collect::<Vec<_>>());
    }
}

#[test]
fn substring_search() {
    assert!(contains_chars(&chars("hello world"), &chars("o w")));
    assert!(contains_chars(&chars("hello"), &chars("")));
    assert!(contains_chars(&chars(""), &chars("")));
    assert!(contains_chars(&chars("hello"), &chars("hello")));
    assert!(contains_chars(&chars("aab"), &chars("ab")));
    assert!(!contains_chars(&chars("hello"), &chars("hello!")));
    assert!(!contains_chars(&chars("hello"), &chars("lol")));
}

#[test]
fn joining_puts_the_separator_between_parts() {
    let parts = |list: &[&str]| list.iter().map(|s| s.to_string()).collect::<Vec<_>>();
    assert_eq!(join_strings(&parts(&["a", "b", "c"]), ", "), "a, b, c");
    assert_eq!(join_strings(&parts(&["a"]), ", "), "a");
    assert_eq!(join_strings(&parts(&[]), ", "), "");
    assert_eq!(join_strings(&parts(&["", ""]), "-"), "-");
}

#[test]
fn numbers_are_written_in_decimal() {
    for n in [0u64, 7, 10, 99, 100, 1_234_567_890, u64::MAX] {
        assert_eq!(text(format_decimal(n)), n.to_string());
    }
    for n in [0i64, -1, 42, -2_147_483_648, i64::MAX, i64::MIN] {
        assert_eq!(text(format_signed(n)), n.to_string());
    }
    assert_eq!(text(format_millionths(7_000_000)), "7");
    assert_eq!(text(format_millionths(7_500_000)), "7.5");
    assert_eq!(text(format_millionths(-250_000)), "-0.25");
    assert_eq!(text(format_millionths(0)), "0");
    assert_eq!(text(format_millionths(1)), "0.000001");
    assert_eq!(text(format_millionths(100_010)), "0.10001");
    assert_eq!(text(format_millionths(i64::MIN)), "-9223372036854.775808");
    assert_eq!(text(format_millionths(i64::MAX)), "9223372036854.775807");
}
