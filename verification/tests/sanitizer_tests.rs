use security_guard::sanitizer::{sanitize, strip_tags};

#[test]
fn test_sanitize_path() {
    assert_eq!(sanitize("../etc/passwd", "path"), "/etc/passwd");
    assert_eq!(sanitize("path\\to\\file", "path"), "path/to/file");
}

#[test]
fn test_sanitize_context() {
    let input = "<script>alert('xss')</script>Build auth";
    assert_eq!(sanitize(input, "handoff_context"), "alert('xss')Build auth");
}

#[test]
fn test_strip_tags() {
    assert_eq!(strip_tags("<p>Hello</p>"), "Hello");
    assert_eq!(strip_tags("No<br/>tags"), "Notags");
}

#[test]
fn sanitize_removes_control_characters() {
    assert_eq!(sanitize("a\u{7}b\u{1b}c", "other"), "abc");
}

#[test]
fn sanitize_keeps_inner_newline_and_tab() {
    assert_eq!(sanitize("a\tb\nc", "other"), "a\tb\nc");
}

#[test]
fn sanitize_trims_whitespace() {
    assert_eq!(sanitize("  hello world \n", "other"), "hello world");
}

#[test]
fn sanitize_path_removes_repeated_traversal() {
    assert_eq!(sanitize("......", "path"), "");
    assert_eq!(sanitize(".....", "path"), ".");
    assert_eq!(sanitize("a..b", "path"), "ab");
}

#[test]
fn sanitize_context_truncates_to_limit() {
    let long = "x".repeat(600);
    let out = sanitize(&long, "handoff_context");
    assert_eq!(out.chars().count(), 500);
}

#[test]
fn strip_tags_unterminated_tag_swallows_rest() {
    assert_eq!(strip_tags("abc<def ghi"), "abc");
    assert_eq!(strip_tags("a<b"), "a");
}

#[test]
fn sanitize_context_idempotent_example() {
    let input = "  <b>Build</b> the auth flow  ";
    let once = sanitize(input, "handoff_context");
    let twice = sanitize(&once, "handoff_context");
    assert_eq!(once, "Build the auth flow");
    assert_eq!(twice, once);
}
