//! Tests of AppleScript expression escaping and the programmable mock
//! runner.

use iterm_mcp::applescript::{escape, normalize_line_endings, MockOsascriptRunner, OsascriptRunner};

#[test]
fn escape_single_line_quotes_and_backslashes() {
    let input = r#"This is "quoted" and a backslash: \"#;
    let out = escape(input);
    assert!(out.starts_with('"') && out.ends_with('"'));
    // Should contain escaped double quotes and escaped backslashes
    assert!(
        out.contains("\\\""),
        "escaped must contain \\\"; got: {}",
        out
    );
    assert!(
        out.contains("\\\\"),
        "escaped must contain \\\\; got: {}",
        out
    );
    assert!(out.contains("This is "));
    assert!(out.contains("quoted"));
}

#[test]
fn escape_with_tabs_and_unicode_and_large_input() {
    let input = "tab\tunicode: \u{1F600}";
    let out = escape(input);
    assert!(out.contains("\t"));
    assert!(out.contains("unicode:"));
    assert!(out.contains("😀"));
    let large = "x".repeat(20_000);
    let out_large = escape(&large);
    assert!(out_large.len() >= large.len());
}

#[test]
fn escape_multiline_composition_and_escaping_edgecases() {
    let input = "line1\nline\"2\\\n第三行\tend";
    let out = escape(input);
    assert!(
        out.starts_with('(') && out.ends_with(')'),
        "multiline should be expression: {}",
        out
    );
    assert!(
        out.contains(" & return & "),
        "expected concatenation with return, got: {}",
        out
    );
    assert!(
        out.contains("\\\""),
        "expected escaped double quote in multiline: {}",
        out
    );
    assert!(
        out.contains("\\\\"),
        "expected escaped backslash sequence in multiline: {}",
        out
    );
    assert!(out.contains("第三行"));
    assert!(out.contains("\t"));
}

#[test]
fn mock_runner_consumes_responses_in_order() {
    let responses = vec!["a".to_string(), "b".to_string()];
    let mut mock = MockOsascriptRunner::new(responses);
    let r1 = mock.run(&["ignore"], 1).expect("first response");
    assert_eq!(r1, "a");
    let r2 = mock.run(&["ignore"], 1).expect("second response");
    assert_eq!(r2, "b");
    let err = mock.run(&["ignore"], 1).unwrap_err();
    let msg = format!("{}", err);
    assert!(msg.contains("no more responses"));
}

#[test]
fn mock_runner_push_response_extends_queue() {
    let mut mock = MockOsascriptRunner::empty();
    assert!(mock.run(&["x"], 1).is_err());
    mock.push_response("later".to_string());
    assert_eq!(mock.run(&["x"], 1).unwrap(), "later");
}

#[test]
fn escape_empty_and_lone_newline() {
    assert_eq!(escape(""), "\"\"");
    assert_eq!(escape("\n"), "(\"\" & return & \"\")");
    assert_eq!(escape("a\nb"), "(\"a\" & return & \"b\")");
}

#[test]
fn normalize_line_endings_collapses_cr_and_crlf() {
    assert_eq!(normalize_line_endings("a\r\nb"), "a\nb");
    assert_eq!(normalize_line_endings("a\rb"), "a\nb");
    assert_eq!(normalize_line_endings("a\r\r\nb\r"), "a\n\nb\n");
    assert_eq!(normalize_line_endings("plain"), "plain");
}

#[test]
fn pop_response_replays_the_queue_in_order() {
    let mut mock = MockOsascriptRunner::new(vec!["x".to_string(), "y".to_string()]);
    assert_eq!(mock.pop_response(), Some("x".to_string()));
    assert_eq!(mock.pop_response(), Some("y".to_string()));
    assert_eq!(mock.pop_response(), None);
    assert_eq!(mock.pop_response(), None);
}
