use media_gateway::sanitization::{
    contains_xss_patterns, escape_json_string, filter_text, sanitize_display_name, sanitize_html,
    sanitize_html_with_tags, sanitize_search_query, sanitize_text, xss_pattern_list,
};

#[test]
fn test_sanitize_html_removes_script() {
    let input = "<script>alert('xss')</script>Hello";
    let result = sanitize_html(input);
    assert!(!result.contains("<script>"));
    assert!(result.contains("Hello"));
}

#[test]
fn test_sanitize_html_removes_onclick() {
    let input = "<div onclick=\"alert('xss')\">Click me</div>";
    let result = sanitize_html(input);
    assert!(!result.contains("onclick"));
}

#[test]
fn test_sanitize_search_query() {
    let input = "action <script>alert('xss')</script> movies";
    let result = sanitize_search_query(input);
    assert_eq!(result, "action scriptalertxssscript movies");
}

#[test]
fn test_sanitize_search_query_max_length() {
    let input = "a".repeat(500);
    let result = sanitize_search_query(&input);
    assert_eq!(result.len(), 256);
}

#[test]
fn test_sanitize_display_name() {
    let input = "John <script>Doe</script>";
    let result = sanitize_display_name(input);
    assert!(!result.contains("<script>"));
}

#[test]
fn test_contains_xss_patterns() {
    assert!(contains_xss_patterns("<script>alert('xss')</script>"));
    assert!(contains_xss_patterns("javascript:alert('xss')"));
    assert!(contains_xss_patterns("<img onerror='alert(1)'>"));
    assert!(!contains_xss_patterns("normal search query"));
}

#[test]
fn test_escape_json_string() {
    let input = "Hello \"World\"\nNew line";
    let result = escape_json_string(input);
    assert_eq!(result, "Hello \\\"World\\\"\\nNew line");
}

#[test]
fn only_the_allowed_tags_survive() {
    let input = "<b>bold</b> <i>italic</i> <script>alert(1)</script><p>text</p>";
    assert_eq!(sanitize_html_with_tags(input, &["b"]), "<b>bold</b> italic text");
    assert_eq!(sanitize_html_with_tags(input, &["i", "p", "i"]), "bold <i>italic</i> <p>text</p>");
    assert_eq!(sanitize_html_with_tags(input, &[]), "bold italic text");
    assert_eq!(sanitize_html("<b>bold</b><blink>x</blink>"), "<b>bold</b>x");
}

#[test]
fn text_fields_are_sanitized_then_cut() {
    assert_eq!(sanitize_text("<script>x</script>Hello World", 5), "Hello");
    assert_eq!(sanitize_text("<script>x</script>Hello World", 0), "");
    assert_eq!(sanitize_text("<b>é</b>t", 100), "<b>é</b>t");
    assert_eq!(sanitize_text("日本語のテキスト", 3), "日本語");
}

#[test]
fn search_queries_keep_words_dashes_and_underscores() {
    assert_eq!(sanitize_search_query("  sci-fi & co_op: 2024?  "), "sci-fi  co_op 2024");
    assert_eq!(sanitize_search_query("émile's café"), "émiles café");
    assert_eq!(sanitize_search_query("日本語 映画"), "日本語 映画");
    assert_eq!(sanitize_search_query(""), "");
    assert_eq!(sanitize_search_query("<>!?"), "");
    // The limit counts kept characters, before trimming.
    let padded = format!("{}{}", " ".repeat(10), "a".repeat(300));
    assert_eq!(sanitize_search_query(&padded), "a".repeat(246));
    let noisy = format!("{}{}", "!".repeat(1000), "b".repeat(256));
    assert_eq!(sanitize_search_query(&noisy), "b".repeat(256));
}

#[test]
fn display_names_keep_dots() {
    assert_eq!(sanitize_display_name("John <script>Doe</script>"), "John scriptDoescript");
    assert_eq!(sanitize_display_name(" Dr. J. O'Neil-Smith_3 "), "Dr. J. ONeil-Smith_3");
    assert_eq!(sanitize_display_name(&"x".repeat(100)), "x".repeat(64));
    assert_eq!(filter_text("a.b'c", Some('\''), 10), "ab'c");
    assert_eq!(filter_text("a.b'c", None, 2), "ab");
}

#[test]
fn xss_patterns_are_found_in_any_case() {
    assert!(contains_xss_patterns("<SCRIPT SRC=x>"));
    assert!(contains_xss_patterns("click: JavaScript:void(0)"));
    assert!(contains_xss_patterns("<a OnClick=\"x\">"));
    assert!(contains_xss_patterns("<body onload=x>"));
    assert!(contains_xss_patterns("x onmouseover=y"));
    assert!(contains_xss_patterns("x onfocus=y"));
    assert!(contains_xss_patterns("x onblur=y"));
    assert!(contains_xss_patterns("<iframe src=x>"));
    assert!(contains_xss_patterns("<object data=x>"));
    assert!(contains_xss_patterns("<embed src=x>"));
    assert!(contains_xss_patterns("data:text/html;base64,AAAA"));
    assert!(contains_xss_patterns("VBScript:msgbox"));
    assert!(!contains_xss_patterns(""));
    assert!(!contains_xss_patterns("script without brackets, onclick without equals"));
    assert_eq!(xss_pattern_list().len(), 13);
}

#[test]
fn json_escapes_cover_the_five_characters() {
    assert_eq!(escape_json_string("a\\b"), "a\\\\b");
    assert_eq!(escape_json_string("\t\r\n"), "\\t\\r\\n");
    assert_eq!(escape_json_string("\\n"), "\\\\n");
    assert_eq!(escape_json_string("\"\\\""), "\\\"\\\\\\\"");
    assert_eq!(escape_json_string(""), "");
    assert_eq!(escape_json_string("plain / text é"), "plain / text é");
    let input = "He said \"hi\\there\"\n\tbye\r";
    let expected = input
        .replace('\\', "\\\\")
        .replace('"', "\\\"")
        .replace('\n', "\\n")
        .replace('\r', "\\r")
        .replace('\t', "\\t");
    assert_eq!(escape_json_string(input), expected);
}
