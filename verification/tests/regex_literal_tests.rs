use ail_core::config::domain::{Condition, Pipeline, RegexCondition};
use ail_core::config::validation::regex_literal::parse_regex_literal;
use ail_core::executor::condition::evaluate_condition;
use ail_core::session::Session;

#[test]
fn parses_simple_literal() {
    let r = parse_regex_literal("/warn|error/").unwrap();
    assert_eq!(r.source, "/warn|error/");
    assert!(r.regex.is_match("warning"));
    assert!(r.regex.is_match("errors here"));
    assert!(!r.regex.is_match("ok"));
}

#[test]
fn parses_literal_with_i_flag() {
    let r = parse_regex_literal("/pass/i").unwrap();
    assert!(r.regex.is_match("PASS"));
    assert!(r.regex.is_match("passed"));
}

#[test]
fn parses_literal_with_m_flag() {
    let r = parse_regex_literal("/^foo/m").unwrap();
    assert!(r.regex.is_match("bar\nfoo"));
}

#[test]
fn parses_literal_with_s_flag() {
    let r = parse_regex_literal("/a.b/s").unwrap();
    assert!(r.regex.is_match("a\nb"));
}

#[test]
fn parses_literal_with_multiple_flags() {
    let r = parse_regex_literal("/^pass$/im").unwrap();
    assert!(r.regex.is_match("warning\nPASS"));
}

#[test]
fn unanchored_by_default() {
    let r = parse_regex_literal("/PASS/").unwrap();
    assert!(r.regex.is_match("tests PASSED"));
}

#[test]
fn case_sensitive_by_default() {
    let r = parse_regex_literal("/PASS/").unwrap();
    assert!(!r.regex.is_match("pass"));
}

#[test]
fn anchors_work() {
    let r = parse_regex_literal("/^PASS$/").unwrap();
    assert!(r.regex.is_match("PASS"));
    assert!(!r.regex.is_match("PASSED"));
}

#[test]
fn patterns_with_embedded_slashes() {
    // The last `/` followed by no flags delimits — so `a/b` is pattern.
    let r = parse_regex_literal("/a/b/").unwrap();
    assert!(r.regex.is_match("a/b"));
}

#[test]
fn patterns_with_embedded_slashes_and_flag() {
    let r = parse_regex_literal("/a/b/i").unwrap();
    assert!(r.regex.is_match("A/B"));
}

#[test]
fn escaped_forward_slashes_work() {
    let r = parse_regex_literal("/foo\\/bar/").unwrap();
    assert!(r.regex.is_match("foo/bar"));
}

#[test]
fn backslash_d_works() {
    let r = parse_regex_literal("/\\d{3}/").unwrap();
    assert!(r.regex.is_match("abc123def"));
    assert!(!r.regex.is_match("abc12def"));
}

#[test]
fn alternation_works() {
    let r = parse_regex_literal("/APPROVED|SHIP IT/").unwrap();
    assert!(r.regex.is_match("APPROVED"));
    assert!(r.regex.is_match("SHIP IT"));
    assert!(!r.regex.is_match("REJECT"));
}

#[test]
fn rejects_missing_leading_slash() {
    let err = parse_regex_literal("warn/").unwrap_err();
    assert!(err.contains("must start with '/'"));
}

#[test]
fn rejects_g_flag_specifically() {
    let err = parse_regex_literal("/warn/g").unwrap_err();
    assert!(err.contains("'g' flag"));
    assert!(err.contains("not meaningful"));
}

#[test]
fn rejects_gi_flags() {
    let err = parse_regex_literal("/warn/gi").unwrap_err();
    assert!(err.contains("'g' flag"));
}

#[test]
fn rejects_x_flag() {
    let err = parse_regex_literal("/warn/x").unwrap_err();
    assert!(err.contains("unsupported"));
    assert!(err.contains("'x'"));
}

#[test]
fn rejects_empty_pattern() {
    let err = parse_regex_literal("//").unwrap_err();
    assert!(err.contains("empty pattern"));
}

#[test]
fn rejects_unterminated() {
    // `/foo` — no closing slash. No alphabetic tail to trigger the
    // unsupported-flags branch, so falls through to the unterminated path.
    let err = parse_regex_literal("/foo").unwrap_err();
    assert!(err.contains("not terminated") || err.contains("unterminated"));
}

#[test]
fn rejects_invalid_regex_syntax() {
    // Unbalanced character class.
    let err = parse_regex_literal("/[unclosed/").unwrap_err();
    assert!(err.contains("failed to compile"));
}

#[test]
fn preserves_source() {
    let r = parse_regex_literal("/warn|error/i").unwrap();
    assert_eq!(r.source, "/warn|error/i");
}

#[test]
fn trims_outer_whitespace() {
    let r = parse_regex_literal("  /pass/i  ").unwrap();
    assert_eq!(r.source, "/pass/i");
}

#[test]
fn error_messages_name_the_literal() {
    assert_eq!(
        parse_regex_literal("warn/").unwrap_err(),
        "regex literal must start with '/', got 'warn/'"
    );
    assert_eq!(parse_regex_literal("//").unwrap_err(), "regex literal '//' has an empty pattern");
    assert_eq!(
        parse_regex_literal("/foo").unwrap_err(),
        "regex literal '/foo' is not terminated (missing closing '/')"
    );
    assert_eq!(
        parse_regex_literal("/").unwrap_err(),
        "regex literal '/' is unterminated (missing closing '/')"
    );
}

#[test]
fn unsupported_flags_are_listed_without_the_supported_ones() {
    let err = parse_regex_literal("/warn/ixq").unwrap_err();
    assert!(err.contains("unsupported flag(s): 'xq'"), "{err}");
}

#[test]
fn parsed_literal_keeps_pattern_and_flags() {
    let r = ail_core::config::validation::regex_literal::parse_regex_literal("/a\\/b/im").unwrap();
    assert_eq!(r.pattern, "a/b");
    assert!(r.case_insensitive);
    assert!(r.multi_line);
    assert!(!r.dot_all);
}

#[test]
fn regex_condition_matches_resolved_text() {
    let p = parse_regex_literal("/PASS/i").unwrap();
    let cond = Condition::Regex(RegexCondition {
        lhs: "all tests pass".to_string(),
        regex: p.regex,
        source: p.source,
        pattern: p.pattern,
        case_insensitive: p.case_insensitive,
        multi_line: p.multi_line,
        dot_all: p.dot_all,
    });
    let session = Session::new(Pipeline::default(), "go".to_string());
    assert_eq!(evaluate_condition(&cond, &session, "s").unwrap(), true);
    let q = parse_regex_literal("/^fail/").unwrap();
    let cond2 = Condition::Regex(RegexCondition {
        lhs: "all tests pass".to_string(),
        regex: q.regex,
        source: q.source,
        pattern: q.pattern,
        case_insensitive: q.case_insensitive,
        multi_line: q.multi_line,
        dot_all: q.dot_all,
    });
    assert_eq!(evaluate_condition(&cond2, &session, "s").unwrap(), false);
}
