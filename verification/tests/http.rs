use mowz::http::{diagnostic_body, is_success, trim_end_matches, DIAGNOSTIC_BODY_LIMIT};

const TRUNCATION_MARKER: &str = "... [truncated]";

#[test]
fn bounds_diagnostics_at_utf_8_boundaries() {
    let body = format!("{}é{} sentinel", "x".repeat(1008), "y".repeat(20));

    let diagnostic = diagnostic_body(&body);

    assert!(diagnostic.len() <= DIAGNOSTIC_BODY_LIMIT);
    assert!(diagnostic.starts_with(&"x".repeat(1008)));
    assert!(diagnostic.ends_with(TRUNCATION_MARKER));
    assert!(!diagnostic.contains('é'));
    assert!(!diagnostic.contains("sentinel"));
}

#[test]
fn keeps_short_diagnostic_bodies_whole() {
    assert_eq!(diagnostic_body("upstream unavailable"), "upstream unavailable");
    let exact = "z".repeat(DIAGNOSTIC_BODY_LIMIT);
    assert_eq!(diagnostic_body(&exact), exact);
}

#[test]
fn cuts_long_ascii_bodies_to_exactly_the_limit() {
    let body = "a".repeat(DIAGNOSTIC_BODY_LIMIT + 1);
    let diagnostic = diagnostic_body(&body);
    assert_eq!(diagnostic.len(), DIAGNOSTIC_BODY_LIMIT);
    assert_eq!(diagnostic, format!("{}{}", "a".repeat(1009), TRUNCATION_MARKER));
}

#[test]
fn classifies_success_statuses() {
    assert!(is_success(200));
    assert!(is_success(299));
    assert!(!is_success(199));
    assert!(!is_success(300));
    assert!(!is_success(502));
}

#[test]
fn trims_only_trailing_slashes() {
    assert_eq!(trim_end_matches("https://grafana.example.com///", '/'), "https://grafana.example.com");
    assert_eq!(trim_end_matches("/a/b", '/'), "/a/b");
    assert_eq!(trim_end_matches("///", '/'), "");
}
