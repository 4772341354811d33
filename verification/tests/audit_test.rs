//! Tests for the audit log listing.

use mcp_guard::audit::{describe_audit_line, listed_lines};
use mcp_guard::json::JsonValue;
use mcp_guard::text::{decimal, is_blank, pad_left, split_lines};

fn text(s: &str) -> JsonValue {
    JsonValue::Str(s.to_string())
}

fn object(pairs: Vec<(&str, JsonValue)>) -> JsonValue {
    JsonValue::Object(pairs.into_iter().map(|(k, v)| (k.to_string(), v)).collect())
}

#[test]
fn test_cli_audit_with_log_file() {
    let entry = object(vec![
        ("timestamp", text("2026-03-01T08:00:00Z")),
        ("direction", text("client_to_server")),
        ("method", text("tools/call")),
        ("tool_name", text("execute_command")),
        ("arguments", object(vec![("cmd", text("ls"))])),
        ("action", text("denied")),
    ]);
    let line = describe_audit_line(0, "ignored", Some(&entry));
    assert_eq!(line.summary, "[   0] 2026-03-01T08:00:00Z    denied  tools/call(execute_command)");
    assert!(line.summary.contains("execute_command"));
    assert!(line.summary.contains("denied"));
    assert!(line.summary.contains("tools/call"));
    assert_eq!(line.arguments.unwrap().get("cmd").unwrap().as_str(), Some("ls"));
}

#[test]
fn test_cli_audit_empty_log() {
    assert!(is_blank(""));
    assert!(is_blank("  \n\t\r\n"));
    assert!(!is_blank(" x "));
    assert!(listed_lines("").is_empty());
}

#[test]
fn test_cli_audit_unparseable_and_blank_lines() {
    let content = "{\"timestamp\":\"2026-03-01T08:00:00Z\",\"direction\":\"c\",\"method\":\"tools/call\",\"tool_name\":\"t\",\"arguments\":null,\"action\":\"allowed\"}\n\nnot valid json at all\n";
    let listed = listed_lines(content);
    assert_eq!(listed.len(), 2);
    assert_eq!(listed[0].0, 0);
    assert_eq!(listed[1].0, 2);
    assert_eq!(listed[1].1, "not valid json at all");
    let bad = describe_audit_line(listed[1].0, &listed[1].1, None);
    assert_eq!(bad.summary, "[   2] (unparseable) not valid json at all");
    assert!(bad.summary.contains("(unparseable) not valid json at all"));
    let entry = object(vec![
        ("timestamp", text("2026-03-01T08:00:00Z")),
        ("method", text("tools/call")),
        ("tool_name", text("t")),
        ("arguments", JsonValue::Null),
        ("action", text("allowed")),
    ]);
    let good = describe_audit_line(0, &listed[0].1, Some(&entry));
    assert!(good.summary.contains("allowed"));
    assert!(good.arguments.is_none());
}

#[test]
fn test_missing_fields_show_question_marks() {
    let line = describe_audit_line(12345, "x", Some(&JsonValue::Int(3)));
    assert_eq!(line.summary, "[12345] ?         ?  ?(?)");
    assert!(line.arguments.is_none());
    let partial = object(vec![("action", JsonValue::Int(1)), ("tool_name", text("tool"))]);
    let line = describe_audit_line(7, "x", Some(&partial));
    assert_eq!(line.summary, "[   7] ?         ?  ?(tool)");
}

#[test]
fn test_split_lines_like_str_lines() {
    let cases = ["", "a", "a\n", "a\r\nb", "a\rb\n", "\n\n", "x\r", "a\r\r\nb\r"];
    for case in cases {
        let ours = split_lines(case);
        let std_lines: Vec<String> = case.lines().map(|l| l.to_string()).collect();
        assert_eq!(ours, std_lines, "case {case:?}");
    }
}

#[test]
fn test_decimal_and_padding() {
    assert_eq!(decimal(0), "0");
    assert_eq!(decimal(42), "42");
    assert_eq!(decimal(1234567), "1234567");
    assert_eq!(pad_left("7", 4), "   7");
    assert_eq!(pad_left("denied", 8), "  denied");
    assert_eq!(pad_left("approved!", 8), "approved!");
    assert_eq!(pad_left("é", 3), "  é");
    for i in [0usize, 5, 99, 1000, 99999] {
        assert_eq!(format!("[{}]", pad_left(&decimal(i), 4)), format!("[{i:>4}]"));
    }
}

#[test]
fn test_blank_matches_trim() {
    let cases = [" ", "\u{a0}", "\u{3000}x", "\u{2028}", "\u{200b}", "\t\u{85}"];
    for case in cases {
        assert_eq!(is_blank(case), case.trim().is_empty(), "case {case:?}");
    }
}
